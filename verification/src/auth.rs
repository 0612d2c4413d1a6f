//! The per-connection state machine of the login protocol. The caller owns
//! the socket and the providers: it performs the [`Action`] that a step
//! returns and hands the outcome back as the next [`Event`].

use crate::error::{ExpectedOpcode, ExpectedOpcodeError, InternalError};
use crate::keys::KeyStorage;
use crate::logon::{
    from_matrix_card_stage, from_pin_stage, installed, logon, logon_challenge,
    logon_challenge_post, logon_integrity, logon_matrix_card_verified, logon_patch,
    logon_pin_verified, logon_proof, logon_proof_post, logon_user, usable_credentials,
    PendingProof,
};
use crate::protocol::{
    ClientMessage, Credentials, LogonChallenge, LogonProof, MatrixCard, Options,
    ReconnectChallenge, ReconnectProof, ServerMessage,
};
use crate::realm_list::Realm;
use crate::reconnect::{reconnect, reconnect_integrity, reconnect_post, reconnect_proof};
use crate::srp::{
    ascii_uppercase, md5_digest, srp_reconnect_accepts, srp_username, valid_account_name,
};
use crate::transfer::{
    transfer, transfer_accept, transfer_continue, transfer_drain, transfer_next, transfer_peeked,
    transfer_peeked_post,
};
use vstd::prelude::*;
use wow_srp::normalized_string::NormalizedString;
use wow_srp::server::SrpServer;

verus! {

/// The values that are drawn at random for one logon challenge.
#[derive(Clone, Copy, Debug, PartialEq, Eq)]
pub struct ChallengeValues {
    pub crc_salt: [u8; 16],
    pub pin_grid_seed: u32,
    pub pin_salt: [u8; 16],
    pub matrix_card_seed: u64,
}

/// A logon whose challenge has been built and whose proof is still to come.
#[derive(Debug)]
pub struct PendingLogon {
    pub challenge: LogonChallenge,
    pub credentials: Credentials,
    pub proof: PendingProof,
    pub values: ChallengeValues,
}

/// A logon whose password proof has been accepted.
#[derive(Debug)]
pub struct ProvenLogon {
    pub challenge: LogonChallenge,
    pub credentials: Credentials,
    pub values: ChallengeValues,
    pub client: LogonProof,
    pub server: SrpServer,
    pub server_proof: [u8; 20],
}

/// Where a connection stands. Each state but the last waits for the outcome
/// of the one action that led to it.
#[derive(Debug)]
#[allow(inconsistent_fields)]
pub enum AuthState {
    /// Waiting for the first message.
    Initial,
    /// A refusal is on its way to the client; `error` is reported once it is out.
    Failing { error: InternalError },
    /// The patch source is being asked whether the client needs a patch.
    LogonPatchLookup { challenge: LogonChallenge, username: NormalizedString },
    /// The credential source is being asked for the account.
    LogonUserLookup { challenge: LogonChallenge, username: NormalizedString },
    /// The random values of the challenge are being drawn.
    LogonDrawValues { challenge: LogonChallenge, username: NormalizedString, credentials: Credentials },
    /// The logon challenge is on its way to the client.
    LogonChallengeSent { logon: PendingLogon },
    /// Waiting for the client's proof.
    LogonAwaitProof { logon: PendingLogon },
    /// The integrity hash over the game files is being computed.
    LogonIntegrityCheck { logon: ProvenLogon },
    /// The client's PIN hash is being verified.
    LogonPinCheck { logon: ProvenLogon },
    /// The client's matrix card proof is being verified.
    LogonMatrixCardCheck { logon: ProvenLogon },
    /// The session is stored and the server's proof is on its way to the client.
    LogonProofSent { challenge: LogonChallenge },
    /// The reconnect challenge is on its way to the client.
    ReconnectChallengeSent { challenge: ReconnectChallenge, server: SrpServer },
    /// Waiting for the client's reconnect proof.
    ReconnectAwaitProof { challenge: ReconnectChallenge, server: SrpServer },
    /// The integrity hash of the reconnect is being computed.
    ReconnectIntegrityCheck { challenge: ReconnectChallenge, server: SrpServer, proof: ReconnectProof },
    /// The success of the reconnect is on its way to the client.
    ReconnectProofSent { challenge: ReconnectChallenge },
    /// Authenticated, and waiting for a request for the realm list.
    RealmListAwaitRequest { challenge: LogonChallenge },
    /// The realm list source is being asked.
    RealmListLookup { challenge: LogonChallenge },
    /// The realm list is on its way to the client.
    RealmListSent { challenge: LogonChallenge },
    /// The client is being told that a download follows.
    TransferChallengeSent { challenge: LogonChallenge, data: Vec<u8> },
    /// The announcement of the file is on its way to the client.
    TransferInitiateSent { challenge: LogonChallenge, data: Vec<u8> },
    /// Waiting for the client to accept or resume the download.
    TransferAwaitAccept { challenge: LogonChallenge, data: Vec<u8> },
    /// Looking whether the client has cancelled, before the chunk at `position` goes out.
    TransferPeek { data: Vec<u8>, position: usize },
    /// A chunk is on its way to the client; the next one starts at `position`.
    TransferChunkSent { data: Vec<u8>, position: usize },
    /// The file is delivered; what the client still sends is read and dropped.
    TransferDrain,
    /// The connection is over.
    Finished,
}

/// What the caller is to do next.
#[derive(Debug, PartialEq, Eq)]
pub enum Action {
    /// Read the first message: a logon or a reconnect challenge.
    ReadInitial,
    /// Read a logon proof.
    ReadLogonProof,
    /// Read a reconnect proof.
    ReadReconnectProof,
    /// Read a realm list request.
    ReadRealmList,
    /// Read whatever message comes next.
    ReadAny,
    /// Send the message.
    Send(ServerMessage),
    /// Ask the patch source for a patch for the challenge.
    GetPatch,
    /// Ask the credential source for the account of the challenge.
    GetUser,
    /// Draw the random values of a logon challenge.
    DrawChallengeValues,
    /// Ask the game-file source for the files of the challenge and, if it
    /// offers any, hash them with the salt and the client's public key.
    CheckIntegrity { crc_salt: [u8; 16], client_public_key: [u8; 32] },
    /// Say whether the client's PIN hash fits the account's PIN.
    VerifyPin { pin: u32, pin_grid_seed: u32, server_salt: [u8; 16], client_salt: [u8; 16], client_hash: [u8; 20] },
    /// Say whether the client's matrix card proof fits the account's card.
    VerifyMatrixCard { challenge_count: u8, seed: u64, session_key: [u8; 40], client_proof: [u8; 20] },
    /// Compute the integrity hash of a reconnect over the client's data.
    ReconnectIntegrity { proof_data: [u8; 16] },
    /// Ask the realm list source for the realms to show for the challenge.
    GetRealmList,
    /// Look, without waiting, whether the client has sent anything.
    Peek,
    /// Close the connection; report the error, if there is one.
    Finish(Result<(), InternalError>),
}

/// The outcome of an action.
#[derive(Debug)]
pub enum Event {
    /// A message was read.
    Message(ClientMessage),
    /// No message of the expected kind could be read.
    ReadFailed(ExpectedOpcodeError),
    /// The message went out.
    Sent,
    /// A write or a peek failed.
    IoFailed,
    /// What the patch source gave.
    Patch(Option<Vec<u8>>),
    /// What the credential source gave.
    User(Option<Credentials>),
    /// The values drawn.
    ChallengeValues(ChallengeValues),
    /// The hash over the game files, or `None` if none are offered.
    Integrity(Option<[u8; 20]>),
    /// Whether a second factor fits.
    Verified(bool),
    /// The integrity hash of a reconnect.
    ReconnectIntegrity([u8; 20]),
    /// What the realm list source gave.
    Realms(Vec<Realm>),
    /// The number of bytes a peek found.
    Peeked(usize),
}

impl AuthState {
    /// Whether `event` can be the outcome of the action that led to this state.
    pub open spec fn spec_awaits(&self, event: &Event) -> bool {
        match self {
            AuthState::Initial
            | AuthState::LogonAwaitProof { .. }
            | AuthState::ReconnectAwaitProof { .. }
            | AuthState::RealmListAwaitRequest { .. }
            | AuthState::TransferAwaitAccept { .. }
            | AuthState::TransferDrain => event is Message || event is ReadFailed,
            AuthState::Failing { .. }
            | AuthState::LogonChallengeSent { .. }
            | AuthState::LogonProofSent { .. }
            | AuthState::ReconnectChallengeSent { .. }
            | AuthState::ReconnectProofSent { .. }
            | AuthState::RealmListSent { .. }
            | AuthState::TransferChallengeSent { .. }
            | AuthState::TransferInitiateSent { .. }
            | AuthState::TransferChunkSent { .. } => event is Sent || event is IoFailed,
            AuthState::LogonPatchLookup { .. } => event is Patch,
            AuthState::LogonUserLookup { .. } => event is User,
            AuthState::LogonDrawValues { .. } => event is ChallengeValues,
            AuthState::LogonIntegrityCheck { .. } => event is Integrity,
            AuthState::LogonPinCheck { .. } | AuthState::LogonMatrixCardCheck { .. } => event is Verified,
            AuthState::ReconnectIntegrityCheck { .. } => event is ReconnectIntegrity,
            AuthState::RealmListLookup { .. } => event is Realms,
            AuthState::TransferPeek { .. } => event is Peeked || event is IoFailed,
            AuthState::Finished => false,
        }
    }

    /// Whether `event` can be the outcome of the action that led to this state.
    #[verifier::when_used_as_spec(spec_awaits)]
    pub fn awaits(&self, event: &Event) -> (r: bool)
        ensures
            r == self.spec_awaits(event),
    {
        match self {
            AuthState::Initial
            | AuthState::LogonAwaitProof { .. }
            | AuthState::ReconnectAwaitProof { .. }
            | AuthState::RealmListAwaitRequest { .. }
            | AuthState::TransferAwaitAccept { .. }
            | AuthState::TransferDrain => matches!(event, Event::Message(_) | Event::ReadFailed(_)),
            AuthState::Failing { .. }
            | AuthState::LogonChallengeSent { .. }
            | AuthState::LogonProofSent { .. }
            | AuthState::ReconnectChallengeSent { .. }
            | AuthState::ReconnectProofSent { .. }
            | AuthState::RealmListSent { .. }
            | AuthState::TransferChallengeSent { .. }
            | AuthState::TransferInitiateSent { .. }
            | AuthState::TransferChunkSent { .. } => matches!(event, Event::Sent | Event::IoFailed),
            AuthState::LogonPatchLookup { .. } => matches!(event, Event::Patch(_)),
            AuthState::LogonUserLookup { .. } => matches!(event, Event::User(_)),
            AuthState::LogonDrawValues { .. } => matches!(event, Event::ChallengeValues(_)),
            AuthState::LogonIntegrityCheck { .. } => matches!(event, Event::Integrity(_)),
            AuthState::LogonPinCheck { .. } | AuthState::LogonMatrixCardCheck { .. } => matches!(
                event,
                Event::Verified(_)
            ),
            AuthState::ReconnectIntegrityCheck { .. } => matches!(event, Event::ReconnectIntegrity(_)),
            AuthState::RealmListLookup { .. } => matches!(event, Event::Realms(_)),
            AuthState::TransferPeek { .. } => matches!(event, Event::Peeked(_) | Event::IoFailed),
            AuthState::Finished => false,
        }
    }
}


/// A refusal: `message` goes to the client, and `error` is reported once it is out.
pub open spec fn refusal(message: ServerMessage, error: InternalError) -> (AuthState, Action) {
    (AuthState::Failing { error }, Action::Send(message))
}

/// The end of a connection with `result`.
pub open spec fn finish(result: Result<(), InternalError>) -> (AuthState, Action) {
    (AuthState::Finished, Action::Finish(result))
}

/// The outcome of a read as a result.
pub open spec fn spec_read_of(event: Event) -> Result<ClientMessage, ExpectedOpcodeError> {
    match event {
        Event::Message(message) => Ok(message),
        Event::ReadFailed(err) => Err(err),
        _ => Err(ExpectedOpcodeError::Io),
    }
}

fn read_of(event: Event) -> (r: Result<ClientMessage, ExpectedOpcodeError>)
    ensures
        r == spec_read_of(event),
{
    match event {
        Event::Message(message) => Ok(message),
        Event::ReadFailed(err) => Err(err),
        _ => Err(ExpectedOpcodeError::Io),
    }
}

/// What the first message leads to.
pub open spec fn auth_post(
    read: Result<ClientMessage, ExpectedOpcodeError>,
    sessions: Map<Seq<char>, SrpServer>,
    r: (AuthState, Action),
) -> bool {
    match read {
        Err(err) => r == finish(
            Err(
                InternalError::ExpectedOpcodeError {
                    expected: ExpectedOpcode::LoginOrReconnect,
                    err,
                },
            ),
        ),
        Ok(ClientMessage::LogonChallenge(challenge)) => {
            if valid_account_name(challenge.account_name@) {
                r.1 == Action::GetPatch && (r.0 matches AuthState::LogonPatchLookup {
                    challenge: kept,
                    username,
                } && kept == challenge && srp_username(username) == ascii_uppercase(
                    challenge.account_name@,
                ))
            } else {
                r == refusal(
                    ServerMessage::LogonChallengeFailUnknownAccount,
                    InternalError::UsernameInvalid { message: challenge },
                )
            }
        },
        Ok(ClientMessage::ReconnectChallenge(challenge)) => reconnect_post(challenge, sessions, r),
        Ok(other) => r == finish(
            Err(
                InternalError::ExpectedOpcodeError {
                    expected: ExpectedOpcode::LoginOrReconnect,
                    err: ExpectedOpcodeError::Opcode(other.spec_opcode() as u32),
                },
            ),
        ),
    }
}

/// The read of the first message has ended: a logon challenge starts a logon,
/// a reconnect challenge a reconnect, and anything else ends the connection.
pub fn auth<S: KeyStorage>(read: Result<ClientMessage, ExpectedOpcodeError>, store: &mut S) -> (r: (
    AuthState,
    Action,
))
    ensures
        final(store).sessions() == old(store).sessions(),
        auth_post(read, old(store).sessions(), r),
{
    match read {
        Err(err) => (
            AuthState::Finished,
            Action::Finish(
                Err(
                    InternalError::ExpectedOpcodeError {
                        expected: ExpectedOpcode::LoginOrReconnect,
                        err,
                    },
                ),
            ),
        ),
        Ok(ClientMessage::LogonChallenge(challenge)) => logon(challenge),
        Ok(ClientMessage::ReconnectChallenge(challenge)) => reconnect(challenge, store),
        Ok(other) => {
            let opcode = other.opcode();
            (
                AuthState::Finished,
                Action::Finish(
                    Err(
                        InternalError::ExpectedOpcodeError {
                            expected: ExpectedOpcode::LoginOrReconnect,
                            err: ExpectedOpcodeError::Opcode(opcode as u32),
                        },
                    ),
                ),
            )
        },
    }
}

/// One turn of the realm list phase: a request for the list has the realm
/// list source asked; anything else, a failed read too, ends the connection
/// in good order.
pub fn send_realm_list(challenge: LogonChallenge, read: Result<ClientMessage, ExpectedOpcodeError>) -> (r: (
    AuthState,
    Action,
))
    ensures
        r == match read {
            Ok(ClientMessage::RealmList) => (
                AuthState::RealmListLookup { challenge },
                Action::GetRealmList,
            ),
            _ => finish(Ok(())),
        },
{
    match read {
        Ok(ClientMessage::RealmList) => (
            AuthState::RealmListLookup { challenge },
            Action::GetRealmList,
        ),
        _ => (AuthState::Finished, Action::Finish(Ok(()))),
    }
}

/// What follows `state` once its message is out; `None` for a state that
/// does not wait for a message to go out, and for the start of a transfer,
/// which `step_post` describes.
pub open spec fn after_sent(state: AuthState) -> Option<(AuthState, Action)> {
    match state {
        AuthState::Failing { error } => Some(finish(Err(error))),
        AuthState::LogonChallengeSent { logon } => Some(
            (AuthState::LogonAwaitProof { logon }, Action::ReadLogonProof),
        ),
        AuthState::LogonProofSent { challenge } => Some(
            (AuthState::RealmListAwaitRequest { challenge }, Action::ReadRealmList),
        ),
        AuthState::ReconnectChallengeSent { challenge, server } => Some(
            (AuthState::ReconnectAwaitProof { challenge, server }, Action::ReadReconnectProof),
        ),
        AuthState::ReconnectProofSent { challenge } => Some(
            (
                AuthState::RealmListAwaitRequest {
                    challenge: LogonChallenge {
                        protocol_version: challenge.protocol_version,
                        version: challenge.version,
                        platform: challenge.platform,
                        os: challenge.os,
                        locale: challenge.locale,
                        utc_timezone_offset: challenge.utc_timezone_offset,
                        client_ip_address: challenge.client_ip_address,
                        account_name: challenge.account_name,
                    },
                },
                Action::ReadRealmList,
            ),
        ),
        AuthState::RealmListSent { challenge } => Some(
            (AuthState::RealmListAwaitRequest { challenge }, Action::ReadRealmList),
        ),
        AuthState::TransferInitiateSent { challenge, data } => Some(
            (AuthState::TransferAwaitAccept { challenge, data }, Action::ReadAny),
        ),
        AuthState::TransferChunkSent { data, position } => Some(transfer_next(data, position)),
        _ => None,
    }
}

/// What one step leads to: the next state, the next action, and the sessions
/// in the store after it. A write that fails ends the connection with `Io`.
pub open spec fn step_post(
    state: AuthState,
    event: Event,
    options: Options,
    before: Map<Seq<char>, SrpServer>,
    r: (AuthState, Action),
    after: Map<Seq<char>, SrpServer>,
) -> bool {
    match state {
        AuthState::Initial => after == before && auth_post(spec_read_of(event), before, r),
        AuthState::LogonPatchLookup { challenge, username } => after == before && (
        event matches Event::Patch(patch) ==> r == match patch {
            Some(data) => (
                AuthState::TransferChallengeSent { challenge, data },
                Action::Send(ServerMessage::LogonChallengeLoginDownloadFile),
            ),
            None => (AuthState::LogonUserLookup { challenge, username }, Action::GetUser),
        }),
        AuthState::LogonUserLookup { challenge, username } => after == before && (
        event matches Event::User(user) ==> r == match user {
            Some(credentials) if usable_credentials(user) => (
                AuthState::LogonDrawValues { challenge, username, credentials },
                Action::DrawChallengeValues,
            ),
            _ => refusal(
                ServerMessage::LogonChallengeFailUnknownAccount,
                InternalError::UsernameNotFound { message: challenge },
            ),
        }),
        AuthState::LogonDrawValues { challenge, username, credentials } => after == before && (
        event matches Event::ChallengeValues(drawn) ==> logon_challenge_post(
            challenge,
            username,
            credentials,
            drawn,
            options,
            r,
        )),
        AuthState::LogonAwaitProof { logon } => after == before && logon_proof_post(
            logon,
            spec_read_of(event),
            r,
        ),
        AuthState::LogonIntegrityCheck { logon } => event matches Event::Integrity(hash) ==> (
        match hash {
            Some(expected) if expected@ != logon.client.crc_hash@ => after == before && r
                == refusal(
                ServerMessage::LogonProofFailVersionInvalid,
                InternalError::InvalidIntegrityCheckForUser { message: logon.challenge },
            ),
            _ => from_pin_stage(logon, before, r, after),
        }),
        AuthState::LogonPinCheck { logon } => event matches Event::Verified(verified) ==> (
        if verified {
            from_matrix_card_stage(logon, before, r, after)
        } else {
            after == before && r == refusal(
                ServerMessage::LogonProofFailIncorrectPassword,
                InternalError::PinInvalidForUser { message: logon.challenge },
            )
        }),
        AuthState::LogonMatrixCardCheck { logon } => event matches Event::Verified(verified) ==> (
        if verified {
            installed(logon, before, r, after)
        } else {
            after == before && r == refusal(
                ServerMessage::LogonProofFailIncorrectPassword,
                InternalError::MatrixCardInvalidForUser { message: logon.challenge },
            )
        }),
        AuthState::ReconnectAwaitProof { challenge, server } => after == before && r
            == match spec_read_of(event) {
            Err(err) => finish(
                Err(
                    InternalError::ExpectedOpcodeError {
                        expected: ExpectedOpcode::ReconnectProof,
                        err,
                    },
                ),
            ),
            Ok(ClientMessage::ReconnectProof(proof)) => (
                AuthState::ReconnectIntegrityCheck { challenge, server, proof },
                Action::ReconnectIntegrity { proof_data: proof.proof_data },
            ),
            Ok(other) => finish(
                Err(
                    InternalError::ExpectedOpcodeError {
                        expected: ExpectedOpcode::ReconnectProof,
                        err: ExpectedOpcodeError::Opcode(other.spec_opcode() as u32),
                    },
                ),
            ),
        },
        AuthState::ReconnectIntegrityCheck { challenge, server, proof } => after == before && (
        event matches Event::ReconnectIntegrity(hash) ==> r == if hash@ != proof.client_checksum@ {
            refusal(
                ServerMessage::ReconnectProof {
                    result: crate::protocol::LoginResult::FailVersionInvalid,
                },
                InternalError::InvalidReconnectIntegrityCheckForUser { message: challenge },
            )
        } else if srp_reconnect_accepts(server, proof.proof_data@, proof.client_proof@) {
            (
                AuthState::ReconnectProofSent { challenge },
                Action::Send(
                    ServerMessage::ReconnectProof { result: crate::protocol::LoginResult::Success },
                ),
            )
        } else {
            refusal(
                ServerMessage::ReconnectProof {
                    result: crate::protocol::LoginResult::FailIncorrectPassword,
                },
                InternalError::InvalidReconnectProofForUser { message: challenge },
            )
        }),
        AuthState::RealmListAwaitRequest { challenge } => after == before && r
            == match spec_read_of(event) {
            Ok(ClientMessage::RealmList) => (
                AuthState::RealmListLookup { challenge },
                Action::GetRealmList,
            ),
            _ => finish(Ok(())),
        },
        AuthState::RealmListLookup { challenge } => after == before && (
        event matches Event::Realms(realms) ==> r == (
            AuthState::RealmListSent { challenge },
            Action::Send(ServerMessage::RealmList { realms }),
        )),
        AuthState::TransferChallengeSent { challenge, data } => after == before && (if event is Sent {
            &&& r.0 == AuthState::TransferInitiateSent { challenge, data }
            &&& r.1 matches Action::Send(
                ServerMessage::XferInitiate { filename, file_size, file_md5 },
            )
            &&& filename@ == "Patch"@
            &&& file_size == data@.len()
            &&& file_md5@ == md5_digest(data@)
        } else {
            r == finish(Err(InternalError::Io))
        }),
        AuthState::TransferAwaitAccept { challenge, data } => after == before && r
            == match spec_read_of(event) {
            Err(err) => finish(
                Err(
                    InternalError::ExpectedOpcodeError { expected: ExpectedOpcode::XferOrResume, err },
                ),
            ),
            Ok(ClientMessage::XferAccept) => transfer_next(data, 0),
            Ok(ClientMessage::XferResume { offset }) => if offset > usize::MAX {
                finish(Err(InternalError::TransferOffsetTooLarge { message: challenge, size: offset }))
            } else {
                transfer_next(data, offset as usize)
            },
            Ok(opcode) => finish(Err(InternalError::MessageInvalid { message: challenge, opcode })),
        },
        AuthState::TransferPeek { data, position } => after == before && transfer_peeked_post(
            data,
            position,
            match event {
                Event::Peeked(found) => Some(found),
                _ => None,
            },
            r,
        ),
        AuthState::TransferDrain => after == before && r == match spec_read_of(event) {
            Ok(_) => (AuthState::TransferDrain, Action::ReadAny),
            Err(_) => finish(Ok(())),
        },
        AuthState::Finished => true,
        waiting => after == before && match after_sent(waiting) {
            Some(next) => r == if event is Sent {
                next
            } else {
                finish(Err(InternalError::Io))
            },
            None => false,
        },
    }
}

/// Whatever the state and the event, a step writes to the store only when it
/// closes a logon with success, and then the session stands under the account
/// name of that logon; after any other step, a failed one too, the store is
/// as it was. The connection is over exactly when its result is handed out.
pub proof fn lemma_store_written_on_success_only(
    state: AuthState,
    event: Event,
    options: Options,
    before: Map<Seq<char>, SrpServer>,
    r: (AuthState, Action),
    after: Map<Seq<char>, SrpServer>,
)
    requires
        state.spec_awaits(&event),
        step_post(state, event, options, before, r, after),
    ensures
        match r.1 {
            Action::Send(ServerMessage::LogonProofSuccess { .. }) => r.0 matches AuthState::LogonProofSent {
                challenge,
            } && after.dom().contains(challenge.account_name@) && after == before.insert(
                challenge.account_name@,
                after[challenge.account_name@],
            ),
            _ => after == before,
        },
        r.1 is Finish <==> r.0 is Finished,
{
}

impl AuthState {
    /// A connection has been accepted: the first message is to be read.
    pub fn start() -> (r: (AuthState, Action))
        ensures
            r == (AuthState::Initial, Action::ReadInitial),
    {
        (AuthState::Initial, Action::ReadInitial)
    }

    /// The challenge that the providers are asked about, once there is one.
    pub fn challenge(&self) -> (r: Option<&LogonChallenge>)
        ensures
            r == match *self {
                AuthState::LogonPatchLookup { challenge, .. }
                | AuthState::LogonUserLookup { challenge, .. }
                | AuthState::LogonDrawValues { challenge, .. }
                | AuthState::LogonProofSent { challenge }
                | AuthState::RealmListAwaitRequest { challenge }
                | AuthState::RealmListLookup { challenge }
                | AuthState::RealmListSent { challenge }
                | AuthState::TransferChallengeSent { challenge, .. }
                | AuthState::TransferInitiateSent { challenge, .. }
                | AuthState::TransferAwaitAccept { challenge, .. } => Some(&challenge),
                AuthState::LogonChallengeSent { logon } | AuthState::LogonAwaitProof { logon } => Some(
                    &logon.challenge,
                ),
                AuthState::LogonIntegrityCheck { logon }
                | AuthState::LogonPinCheck { logon }
                | AuthState::LogonMatrixCardCheck { logon } => Some(&logon.challenge),
                _ => None,
            },
    {
        match self {
            AuthState::LogonPatchLookup { challenge, .. }
            | AuthState::LogonUserLookup { challenge, .. }
            | AuthState::LogonDrawValues { challenge, .. }
            | AuthState::LogonProofSent { challenge }
            | AuthState::RealmListAwaitRequest { challenge }
            | AuthState::RealmListLookup { challenge }
            | AuthState::RealmListSent { challenge }
            | AuthState::TransferChallengeSent { challenge, .. }
            | AuthState::TransferInitiateSent { challenge, .. }
            | AuthState::TransferAwaitAccept { challenge, .. } => Some(challenge),
            AuthState::LogonChallengeSent { logon } | AuthState::LogonAwaitProof { logon } => Some(
                &logon.challenge,
            ),
            AuthState::LogonIntegrityCheck { logon }
            | AuthState::LogonPinCheck { logon }
            | AuthState::LogonMatrixCardCheck { logon } => Some(&logon.challenge),
            _ => None,
        }
    }

    /// The matrix card that a card proof is to be verified against.
    pub fn matrix_card(&self) -> (r: Option<&MatrixCard>)
        ensures
            r == match *self {
                AuthState::LogonMatrixCardCheck { logon } => match logon.credentials.matrix_card {
                    Some(card) => Some(&card.matrix_card),
                    None => None,
                },
                _ => None,
            },
    {
        match self {
            AuthState::LogonMatrixCardCheck { logon } => match &logon.credentials.matrix_card {
                Some(card) => Some(&card.matrix_card),
                None => None,
            },
            _ => None,
        }
    }

    /// Takes the outcome of the last action and says what to do next. A
    /// session is stored only by the step that closes a logon with success,
    /// and is in the store when the success goes out. A connection is over
    /// exactly when its result is handed out, which happens once.
    pub fn step<S: KeyStorage>(self, event: Event, store: &mut S, options: &Options) -> (r: (
        AuthState,
        Action,
    ))
        requires
            self.spec_awaits(&event),
        ensures
            step_post(self, event, *options, old(store).sessions(), r, final(store).sessions()),
            r.1 is Finish <==> r.0 is Finished,
            match r.1 {
                Action::Send(ServerMessage::LogonProofSuccess { .. }) => r.0 matches AuthState::LogonProofSent {
                    challenge,
                } && final(store).sessions().dom().contains(challenge.account_name@) && final(store).sessions()
                    == old(store).sessions().insert(
                    challenge.account_name@,
                    final(store).sessions()[challenge.account_name@],
                ),
                _ => final(store).sessions() == old(store).sessions(),
            },
    {
        match self {
            AuthState::Initial => auth(read_of(event), store),
            AuthState::Failing { error } => match event {
                Event::Sent => (AuthState::Finished, Action::Finish(Err(error))),
                _ => (AuthState::Finished, Action::Finish(Err(InternalError::Io))),
            },
            AuthState::LogonPatchLookup { challenge, username } => match event {
                Event::Patch(patch) => logon_patch(challenge, username, patch),
                _ => (AuthState::Finished, Action::Finish(Err(InternalError::Io))),
            },
            AuthState::LogonUserLookup { challenge, username } => match event {
                Event::User(user) => logon_user(challenge, username, user),
                _ => (AuthState::Finished, Action::Finish(Err(InternalError::Io))),
            },
            AuthState::LogonDrawValues { challenge, username, credentials } => match event {
                Event::ChallengeValues(drawn) => logon_challenge(
                    challenge,
                    username,
                    credentials,
                    drawn,
                    options,
                ),
                _ => (AuthState::Finished, Action::Finish(Err(InternalError::Io))),
            },
            AuthState::LogonChallengeSent { logon } => match event {
                Event::Sent => (AuthState::LogonAwaitProof { logon }, Action::ReadLogonProof),
                _ => (AuthState::Finished, Action::Finish(Err(InternalError::Io))),
            },
            AuthState::LogonAwaitProof { logon } => logon_proof(logon, read_of(event)),
            AuthState::LogonIntegrityCheck { logon } => match event {
                Event::Integrity(hash) => logon_integrity(logon, hash, store),
                _ => (AuthState::Finished, Action::Finish(Err(InternalError::Io))),
            },
            AuthState::LogonPinCheck { logon } => match event {
                Event::Verified(verified) => logon_pin_verified(logon, verified, store),
                _ => (AuthState::Finished, Action::Finish(Err(InternalError::Io))),
            },
            AuthState::LogonMatrixCardCheck { logon } => match event {
                Event::Verified(verified) => logon_matrix_card_verified(logon, verified, store),
                _ => (AuthState::Finished, Action::Finish(Err(InternalError::Io))),
            },
            AuthState::LogonProofSent { challenge } => match event {
                Event::Sent => (AuthState::RealmListAwaitRequest { challenge }, Action::ReadRealmList),
                _ => (AuthState::Finished, Action::Finish(Err(InternalError::Io))),
            },
            AuthState::ReconnectChallengeSent { challenge, server } => match event {
                Event::Sent => (
                    AuthState::ReconnectAwaitProof { challenge, server },
                    Action::ReadReconnectProof,
                ),
                _ => (AuthState::Finished, Action::Finish(Err(InternalError::Io))),
            },
            AuthState::ReconnectAwaitProof { challenge, server } => reconnect_proof(
                challenge,
                server,
                read_of(event),
            ),
            AuthState::ReconnectIntegrityCheck { challenge, server, proof } => match event {
                Event::ReconnectIntegrity(hash) => reconnect_integrity(challenge, server, proof, hash),
                _ => (AuthState::Finished, Action::Finish(Err(InternalError::Io))),
            },
            AuthState::ReconnectProofSent { challenge } => match event {
                Event::Sent => (
                    AuthState::RealmListAwaitRequest { challenge: challenge.into_logon_challenge() },
                    Action::ReadRealmList,
                ),
                _ => (AuthState::Finished, Action::Finish(Err(InternalError::Io))),
            },
            AuthState::RealmListAwaitRequest { challenge } => send_realm_list(
                challenge,
                read_of(event),
            ),
            AuthState::RealmListLookup { challenge } => match event {
                Event::Realms(realms) => (
                    AuthState::RealmListSent { challenge },
                    Action::Send(ServerMessage::RealmList { realms }),
                ),
                _ => (AuthState::Finished, Action::Finish(Err(InternalError::Io))),
            },
            AuthState::RealmListSent { challenge } => match event {
                Event::Sent => (AuthState::RealmListAwaitRequest { challenge }, Action::ReadRealmList),
                _ => (AuthState::Finished, Action::Finish(Err(InternalError::Io))),
            },
            AuthState::TransferChallengeSent { challenge, data } => match event {
                Event::Sent => transfer(challenge, data),
                _ => (AuthState::Finished, Action::Finish(Err(InternalError::Io))),
            },
            AuthState::TransferInitiateSent { challenge, data } => match event {
                Event::Sent => (AuthState::TransferAwaitAccept { challenge, data }, Action::ReadAny),
                _ => (AuthState::Finished, Action::Finish(Err(InternalError::Io))),
            },
            AuthState::TransferAwaitAccept { challenge, data } => transfer_accept(
                challenge,
                data,
                read_of(event),
            ),
            AuthState::TransferPeek { data, position } => match event {
                Event::Peeked(found) => transfer_peeked(data, position, Some(found)),
                _ => transfer_peeked(data, position, None),
            },
            AuthState::TransferChunkSent { data, position } => match event {
                Event::Sent => transfer_continue(data, position),
                _ => (AuthState::Finished, Action::Finish(Err(InternalError::Io))),
            },
            AuthState::TransferDrain => transfer_drain(read_of(event)),
            AuthState::Finished => (AuthState::Finished, Action::Finish(Ok(()))),
        }
    }

    /// Takes the step for `event` if the state waits for such an event, and
    /// hands the state and the event back untouched if it does not.
    pub fn try_step<S: KeyStorage>(self, event: Event, store: &mut S, options: &Options) -> (r: Result<
        (AuthState, Action),
        (AuthState, Event),
    >)
        ensures
            match r {
                Ok(next) => self.spec_awaits(&event) && step_post(
                    self,
                    event,
                    *options,
                    old(store).sessions(),
                    next,
                    final(store).sessions(),
                ),
                Err(back) => !self.spec_awaits(&event) && back == (self, event) && final(store).sessions()
                    == old(store).sessions(),
            },
    {
        if self.awaits(&event) {
            Ok(self.step(event, store, options))
        } else {
            Err((self, event))
        }
    }
}

} // verus!
