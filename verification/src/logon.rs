//! The fresh logon: challenge, password proof, integrity check, second
//! factors and the installation of the session.

use crate::auth::{finish, refusal, Action, AuthState, ChallengeValues, PendingLogon, ProvenLogon};
use crate::error::{ExpectedOpcode, ExpectedOpcodeError, InternalError};
use crate::keys::KeyStorage;
use crate::protocol::{
    ClientMessage, Credentials, LogonChallenge, LogonProof, MatrixCardChallenge, Options,
    PinChallenge, SecurityFlag, ServerMessage,
};
use crate::srp::{
    ascii_uppercase, into_proof, into_server, large_safe_prime, large_safe_prime_bytes, normalize,
    proof_salt, proof_server_public_key, session_key, srp_negotiated_key, srp_proof_public_key,
    srp_proof_salt, srp_proof_username, srp_proof_verifier, srp_server_proof, srp_session_key,
    srp_username, valid_account_name, valid_password_verifier, valid_public_key,
    InvalidPublicKeyError, GENERATOR,
};
use vstd::prelude::*;
use wow_srp::normalized_string::NormalizedString;
use wow_srp::server::{SrpProof, SrpServer};

verus! {

/// Whether a stored password verifier can be used: it is neither zero nor
/// the large safe prime.
pub fn is_valid_password_verifier(verifier: &[u8; 32]) -> (r: bool)
    ensures
        r == valid_password_verifier(verifier@),
{
    let prime = large_safe_prime_bytes();
    let mut zero = true;
    let mut is_prime = true;
    let mut i: usize = 0;
    while i < 32
        invariant
            i <= 32,
            prime@ == large_safe_prime(),
            zero <==> forall|j: int| 0 <= j < i ==> verifier@[j] == 0,
            is_prime <==> forall|j: int| 0 <= j < i ==> verifier@[j] == prime@[j],
        decreases 32 - i,
    {
        if verifier[i] != 0 {
            zero = false;
        }
        if verifier[i] != prime[i] {
            is_prime = false;
        }
        i += 1;
    }
    proof {
        let zeros = Seq::new(32, |i: int| 0u8);
        if zero {
            assert(verifier@ =~= zeros);
        } else {
            let j = choose|j: int| 0 <= j < 32 && verifier@[j] != 0;
            assert(zeros[j] == 0);
        }
        if is_prime {
            assert(verifier@ =~= large_safe_prime());
        }
    }
    !zero && !is_prime
}

/// The server's half of a password proof, begun with a verifier that can be
/// used and waiting for the client's half.
#[derive(Debug)]
pub struct PendingProof {
    proof: SrpProof,
}

impl View for PendingProof {
    type V = SrpProof;

    closed spec fn view(&self) -> SrpProof {
        self.proof
    }
}

impl PendingProof {
    /// The verifier that the proof was begun with can be used.
    #[verifier::type_invariant]
    spec fn usable(&self) -> bool {
        valid_password_verifier(srp_proof_verifier(self.proof))
    }

    /// Begins a proof for `username` with the stored verifier and salt; there
    /// is none for a verifier that cannot be used.
    pub fn begin(username: NormalizedString, password_verifier: [u8; 32], salt: [u8; 32]) -> (r: Option<
        Self,
    >)
        ensures
            r is Some <==> valid_password_verifier(password_verifier@),
            r matches Some(pending) ==> {
                &&& srp_proof_username(pending@) == srp_username(username)
                &&& srp_proof_verifier(pending@) == password_verifier@
                &&& srp_proof_salt(pending@) == salt@
            },
    {
        if is_valid_password_verifier(&password_verifier) {
            Some(PendingProof { proof: into_proof(username, password_verifier, salt) })
        } else {
            None
        }
    }

    /// The salt that the proof was begun with.
    pub fn salt(&self) -> (r: [u8; 32])
        ensures
            r@ == srp_proof_salt(self@),
    {
        proof_salt(&self.proof)
    }

    /// The server's public key.
    pub fn server_public_key(&self) -> (r: [u8; 32])
        ensures
            r@ == srp_proof_public_key(self@),
    {
        proof_server_public_key(&self.proof)
    }

    /// Checks the client's half. A key that is no public key is an error;
    /// a proof that does not match gives `None`; a match gives the session,
    /// which holds the negotiated key, and the server's proof.
    pub fn into_server(self, client_public_key: [u8; 32], client_proof: [u8; 20]) -> (r: Result<
        Option<(SrpServer, [u8; 20])>,
        InvalidPublicKeyError,
    >)
        ensures
            r is Ok <==> valid_public_key(client_public_key@),
            r matches Err(e) ==> e == if client_public_key@[0] == 0 {
                InvalidPublicKeyError::PublicKeyIsZero
            } else {
                InvalidPublicKeyError::PublicKeyModLargeSafePrimeIsZero
            },
            r matches Ok(Some(found)) ==> srp_server_proof(self@, client_public_key@, client_proof@)
                == Some(found.1@) && srp_session_key(found.0) == srp_negotiated_key(
                self@,
                client_public_key@,
            ),
            r matches Ok(None) ==> srp_server_proof(self@, client_public_key@, client_proof@) is None,
    {
        proof {
            use_type_invariant(&self);
        }
        into_server(self.proof, client_public_key, client_proof)
    }
}

/// Whether two hashes are the same, byte by byte.
pub fn same_hash(a: &[u8; 20], b: &[u8; 20]) -> (r: bool)
    ensures
        r == (a@ == b@),
{
    let mut i: usize = 0;
    while i < 20
        invariant
            i <= 20,
            forall|j: int| 0 <= j < i ==> a@[j] == b@[j],
        decreases 20 - i,
    {
        if a[i] != b[i] {
            return false;
        }
        i += 1;
    }
    assert(a@ =~= b@);
    true
}

/// A logon challenge has arrived: a name that cannot be normalized is
/// refused as an unknown account; for any other the patch source is asked.
pub fn logon(challenge: LogonChallenge) -> (r: (AuthState, Action))
    ensures
        !valid_account_name(challenge.account_name@) ==> r == refusal(
            ServerMessage::LogonChallengeFailUnknownAccount,
            InternalError::UsernameInvalid { message: challenge },
        ),
        valid_account_name(challenge.account_name@) ==> r.1 == Action::GetPatch && (
        r.0 matches AuthState::LogonPatchLookup { challenge: kept, username } && kept == challenge
            && srp_username(username) == ascii_uppercase(challenge.account_name@)),
{
    match normalize(challenge.account_name.as_str()) {
        Some(username) => (AuthState::LogonPatchLookup { challenge, username }, Action::GetPatch),
        None => (
            AuthState::Failing { error: InternalError::UsernameInvalid { message: challenge } },
            Action::Send(ServerMessage::LogonChallengeFailUnknownAccount),
        ),
    }
}

/// The patch source has answered: a patch is handed to the transfer, and
/// without one the credential source is asked.
pub fn logon_patch(challenge: LogonChallenge, username: NormalizedString, patch: Option<Vec<u8>>) -> (r: (
    AuthState,
    Action,
))
    ensures
        r == match patch {
            Some(data) => (
                AuthState::TransferChallengeSent { challenge, data },
                Action::Send(ServerMessage::LogonChallengeLoginDownloadFile),
            ),
            None => (AuthState::LogonUserLookup { challenge, username }, Action::GetUser),
        },
{
    match patch {
        Some(data) => (
            AuthState::TransferChallengeSent { challenge, data },
            Action::Send(ServerMessage::LogonChallengeLoginDownloadFile),
        ),
        None => (AuthState::LogonUserLookup { challenge, username }, Action::GetUser),
    }
}

/// Credentials that a logon can be checked against: there are some, and
/// their password verifier can be used.
pub open spec fn usable_credentials(user: Option<Credentials>) -> bool {
    user matches Some(credentials) && valid_password_verifier(credentials.password_verifier@)
}

/// The credential source has answered: an account it does not know, or one
/// whose verifier cannot be used, is refused as unknown; for any other the
/// values of the challenge are drawn.
pub fn logon_user(challenge: LogonChallenge, username: NormalizedString, user: Option<Credentials>) -> (r: (
    AuthState,
    Action,
))
    ensures
        r == match user {
            Some(credentials) if usable_credentials(user) => (
                AuthState::LogonDrawValues { challenge, username, credentials },
                Action::DrawChallengeValues,
            ),
            _ => refusal(
                ServerMessage::LogonChallengeFailUnknownAccount,
                InternalError::UsernameNotFound { message: challenge },
            ),
        },
{
    match user {
        Some(credentials) => {
            if is_valid_password_verifier(&credentials.password_verifier) {
                (
                    AuthState::LogonDrawValues { challenge, username, credentials },
                    Action::DrawChallengeValues,
                )
            } else {
                (
                    AuthState::Failing {
                        error: InternalError::UsernameNotFound { message: challenge },
                    },
                    Action::Send(ServerMessage::LogonChallengeFailUnknownAccount),
                )
            }
        },
        None => (
            AuthState::Failing { error: InternalError::UsernameNotFound { message: challenge } },
            Action::Send(ServerMessage::LogonChallengeFailUnknownAccount),
        ),
    }
}

/// The values a challenge goes out with: those drawn, with the PIN grid seed
/// zero unless the grid is to be shuffled.
pub open spec fn effective_values(drawn: ChallengeValues, options: Options) -> ChallengeValues {
    ChallengeValues {
        crc_salt: drawn.crc_salt,
        pin_grid_seed: if options.randomize_pin_grid {
            drawn.pin_grid_seed
        } else {
            0
        },
        pin_salt: drawn.pin_salt,
        matrix_card_seed: drawn.matrix_card_seed,
    }
}

/// The second factors a challenge asks for: the PIN if the account has one,
/// the matrix card if the account has one.
pub open spec fn security_flag_for(credentials: Credentials, values: ChallengeValues) -> SecurityFlag {
    SecurityFlag {
        pin: match credentials.pin {
            Some(_) => Some(
                PinChallenge { pin_grid_seed: values.pin_grid_seed, pin_salt: values.pin_salt },
            ),
            None => None,
        },
        matrix_card: match credentials.matrix_card {
            Some(card) => Some(
                MatrixCardChallenge {
                    challenge_count: card.challenge_count,
                    digit_count: card.matrix_card.spec_digit_count(),
                    height: card.matrix_card.spec_height(),
                    seed: values.matrix_card_seed,
                    width: card.matrix_card.spec_width(),
                },
            ),
            None => None,
        },
    }
}

/// `message` is the challenge that answers a logon of an account with
/// `logon.credentials`, built around the pending proof of `logon`.
pub open spec fn is_logon_challenge(message: ServerMessage, logon: PendingLogon) -> bool {
    &&& message matches ServerMessage::LogonChallengeSuccess {
        crc_salt,
        generator,
        large_safe_prime: prime,
        salt,
        security_flag,
        server_public_key,
    }
    &&& crc_salt == logon.values.crc_salt
    &&& generator == GENERATOR
    &&& prime@ == large_safe_prime()
    &&& salt@ == logon.credentials.salt@
    &&& security_flag == security_flag_for(logon.credentials, logon.values)
    &&& server_public_key@ == srp_proof_public_key(logon.proof@)
}

/// `logon` waits for the client's half of a proof that was begun for
/// `username`, with the verifier and the salt of `credentials`.
pub open spec fn is_pending(
    logon: PendingLogon,
    challenge: LogonChallenge,
    username: NormalizedString,
    credentials: Credentials,
    values: ChallengeValues,
) -> bool {
    &&& logon.challenge == challenge
    &&& logon.credentials == credentials
    &&& logon.values == values
    &&& srp_proof_username(logon.proof@) == srp_username(username)
    &&& srp_proof_verifier(logon.proof@) == credentials.password_verifier@
    &&& srp_proof_salt(logon.proof@) == credentials.salt@
}

/// What the drawn values lead to.
pub open spec fn logon_challenge_post(
    challenge: LogonChallenge,
    username: NormalizedString,
    credentials: Credentials,
    drawn: ChallengeValues,
    options: Options,
    r: (AuthState, Action),
) -> bool {
    if valid_password_verifier(credentials.password_verifier@) {
        &&& r.0 matches AuthState::LogonChallengeSent { logon }
        &&& is_pending(logon, challenge, username, credentials, effective_values(drawn, options))
        &&& r.1 matches Action::Send(message)
        &&& is_logon_challenge(message, logon)
    } else {
        r == refusal(
            ServerMessage::LogonChallengeFailUnknownAccount,
            InternalError::UsernameNotFound { message: challenge },
        )
    }
}

/// The values of the challenge have been drawn: the proof is begun and the
/// challenge goes out. An account whose verifier cannot be used is refused
/// as unknown.
pub fn logon_challenge(
    challenge: LogonChallenge,
    username: NormalizedString,
    credentials: Credentials,
    drawn: ChallengeValues,
    options: &Options,
) -> (r: (AuthState, Action))
    ensures
        logon_challenge_post(challenge, username, credentials, drawn, *options, r),
{
    let values = ChallengeValues {
        crc_salt: drawn.crc_salt,
        pin_grid_seed: if options.randomize_pin_grid {
            drawn.pin_grid_seed
        } else {
            0
        },
        pin_salt: drawn.pin_salt,
        matrix_card_seed: drawn.matrix_card_seed,
    };
    let proof = match PendingProof::begin(username, credentials.password_verifier, credentials.salt) {
        Some(proof) => proof,
        None => {
            return (
                AuthState::Failing { error: InternalError::UsernameNotFound { message: challenge } },
                Action::Send(ServerMessage::LogonChallengeFailUnknownAccount),
            );
        },
    };
    let security_flag = SecurityFlag {
        pin: match credentials.pin {
            Some(_) => Some(
                PinChallenge { pin_grid_seed: values.pin_grid_seed, pin_salt: values.pin_salt },
            ),
            None => None,
        },
        matrix_card: match &credentials.matrix_card {
            Some(card) => Some(
                MatrixCardChallenge {
                    challenge_count: card.challenge_count,
                    digit_count: card.matrix_card.digit_count(),
                    height: card.matrix_card.height(),
                    seed: values.matrix_card_seed,
                    width: card.matrix_card.width(),
                },
            ),
            None => None,
        },
    };
    let message = ServerMessage::LogonChallengeSuccess {
        crc_salt: values.crc_salt,
        generator: GENERATOR,
        large_safe_prime: large_safe_prime_bytes(),
        salt: proof.salt(),
        security_flag,
        server_public_key: proof.server_public_key(),
    };
    (
        AuthState::LogonChallengeSent { logon: PendingLogon { challenge, credentials, proof, values } },
        Action::Send(message),
    )
}


/// The proven logon that `logon` becomes when the client's proof `client` is
/// accepted and answered with `server_proof`: its session holds the key that
/// the pending proof and the client's public key lead to.
pub open spec fn is_proven(proven: ProvenLogon, logon: PendingLogon, client: LogonProof, server_proof: Seq<u8>) -> bool {
    &&& proven.challenge == logon.challenge
    &&& proven.credentials == logon.credentials
    &&& proven.values == logon.values
    &&& proven.client == client
    &&& proven.server_proof@ == server_proof
    &&& srp_session_key(proven.server) == srp_negotiated_key(logon.proof@, client.client_public_key@)
}

/// The password proof has been checked, with `outcome`. A key that is no
/// public key ends the connection with no answer; a proof that does not match
/// is refused as a wrong password; after a match the integrity of the
/// client's files is checked.
pub fn logon_proof_checked(
    logon_challenge: LogonChallenge,
    credentials: Credentials,
    values: ChallengeValues,
    client: LogonProof,
    outcome: Result<Option<(SrpServer, [u8; 20])>, InvalidPublicKeyError>,
) -> (r: (AuthState, Action))
    ensures
        match outcome {
            Err(err) => r == finish(
                Err(InternalError::InvalidPublicKey { message: logon_challenge, err }),
            ),
            Ok(None) => r == refusal(
                ServerMessage::LogonProofFailIncorrectPassword,
                InternalError::InvalidPasswordForUser { message: logon_challenge },
            ),
            Ok(Some(found)) => r == (
                AuthState::LogonIntegrityCheck {
                    logon: ProvenLogon {
                        challenge: logon_challenge,
                        credentials,
                        values,
                        client,
                        server: found.0,
                        server_proof: found.1,
                    },
                },
                Action::CheckIntegrity {
                    crc_salt: values.crc_salt,
                    client_public_key: client.client_public_key,
                },
            ),
        },
{
    match outcome {
        Err(err) => (
            AuthState::Finished,
            Action::Finish(Err(InternalError::InvalidPublicKey { message: logon_challenge, err })),
        ),
        Ok(None) => (
            AuthState::Failing {
                error: InternalError::InvalidPasswordForUser { message: logon_challenge },
            },
            Action::Send(ServerMessage::LogonProofFailIncorrectPassword),
        ),
        Ok(Some((server, server_proof))) => (
            AuthState::LogonIntegrityCheck {
                logon: ProvenLogon {
                    challenge: logon_challenge,
                    credentials,
                    values,
                    client,
                    server,
                    server_proof,
                },
            },
            Action::CheckIntegrity {
                crc_salt: values.crc_salt,
                client_public_key: client.client_public_key,
            },
        ),
    }
}

/// What the read of the logon proof leads to.
pub open spec fn logon_proof_post(
    logon: PendingLogon,
    read: Result<ClientMessage, ExpectedOpcodeError>,
    r: (AuthState, Action),
) -> bool {
    match read {
        Err(err) => r == finish(
            Err(InternalError::ExpectedOpcodeError { expected: ExpectedOpcode::LogonProof, err }),
        ),
        Ok(ClientMessage::LogonProof(client)) => {
            if !valid_public_key(client.client_public_key@) {
                r == finish(
                    Err(
                        InternalError::InvalidPublicKey {
                            message: logon.challenge,
                            err: if client.client_public_key@[0] == 0 {
                                InvalidPublicKeyError::PublicKeyIsZero
                            } else {
                                InvalidPublicKeyError::PublicKeyModLargeSafePrimeIsZero
                            },
                        },
                    ),
                )
            } else {
                match srp_server_proof(logon.proof@, client.client_public_key@, client.client_proof@) {
                    None => r == refusal(
                        ServerMessage::LogonProofFailIncorrectPassword,
                        InternalError::InvalidPasswordForUser { message: logon.challenge },
                    ),
                    Some(server_proof) => {
                        &&& r.0 matches AuthState::LogonIntegrityCheck { logon: proven }
                        &&& is_proven(proven, logon, client, server_proof)
                        &&& r.1 == Action::CheckIntegrity {
                            crc_salt: logon.values.crc_salt,
                            client_public_key: client.client_public_key,
                        }
                    },
                }
            }
        },
        Ok(other) => r == finish(
            Err(
                InternalError::ExpectedOpcodeError {
                    expected: ExpectedOpcode::LogonProof,
                    err: ExpectedOpcodeError::Opcode(other.spec_opcode() as u32),
                },
            ),
        ),
    }
}

/// The read of the logon proof has ended. Anything but a logon proof ends
/// the connection; the proof is checked against the pending one.
pub fn logon_proof(logon: PendingLogon, read: Result<ClientMessage, ExpectedOpcodeError>) -> (r: (
    AuthState,
    Action,
))
    ensures
        logon_proof_post(logon, read, r),
{
    match read {
        Err(err) => (
            AuthState::Finished,
            Action::Finish(
                Err(InternalError::ExpectedOpcodeError { expected: ExpectedOpcode::LogonProof, err }),
            ),
        ),
        Ok(ClientMessage::LogonProof(client)) => {
            let outcome = logon.proof.into_server(client.client_public_key, client.client_proof);
            logon_proof_checked(logon.challenge, logon.credentials, logon.values, client, outcome)
        },
        Ok(other) => {
            let opcode = other.opcode();
            (
                AuthState::Finished,
                Action::Finish(
                    Err(
                        InternalError::ExpectedOpcodeError {
                            expected: ExpectedOpcode::LogonProof,
                            err: ExpectedOpcodeError::Opcode(opcode as u32),
                        },
                    ),
                ),
            )
        },
    }
}


/// The session of `logon` is installed under the account name as the client
/// sent it, and the server's proof goes out.
pub open spec fn installed(
    logon: ProvenLogon,
    before: Map<Seq<char>, SrpServer>,
    r: (AuthState, Action),
    after: Map<Seq<char>, SrpServer>,
) -> bool {
    &&& after == before.insert(logon.challenge.account_name@, logon.server)
    &&& r == (
        AuthState::LogonProofSent { challenge: logon.challenge },
        Action::Send(
            ServerMessage::LogonProofSuccess {
                account_flag: 0,
                hardware_survey_id: 0,
                server_proof: logon.server_proof,
                unknown: 0,
            },
        ),
    )
}

/// What follows once the PIN is settled. An account with a matrix card must
/// have been sent a card proof, which is then verified; an account without
/// one has its session installed.
pub open spec fn from_matrix_card_stage(
    logon: ProvenLogon,
    before: Map<Seq<char>, SrpServer>,
    r: (AuthState, Action),
    after: Map<Seq<char>, SrpServer>,
) -> bool {
    match logon.credentials.matrix_card {
        Some(card) => match logon.client.matrix_card_proof {
            None => after == before && r == refusal(
                ServerMessage::LogonProofFailIncorrectPassword,
                InternalError::MatrixCardDataNotSentForUser { message: logon.challenge },
            ),
            Some(sent) => {
                &&& after == before
                &&& r.0 == AuthState::LogonMatrixCardCheck { logon }
                &&& r.1 matches Action::VerifyMatrixCard {
                    challenge_count,
                    seed,
                    session_key: key,
                    client_proof,
                }
                &&& challenge_count == card.challenge_count
                &&& seed == logon.values.matrix_card_seed
                &&& key@ == srp_session_key(logon.server)
                &&& client_proof == sent
            },
        },
        None => installed(logon, before, r, after),
    }
}

/// What follows once the integrity check has passed. An account with a PIN
/// must have been sent a PIN proof, which is then verified; for an account
/// without one the matrix card is next.
pub open spec fn from_pin_stage(
    logon: ProvenLogon,
    before: Map<Seq<char>, SrpServer>,
    r: (AuthState, Action),
    after: Map<Seq<char>, SrpServer>,
) -> bool {
    match logon.credentials.pin {
        Some(pin) => match logon.client.pin {
            None => after == before && r == refusal(
                ServerMessage::LogonProofFailIncorrectPassword,
                InternalError::PinNotSentForUser { message: logon.challenge },
            ),
            Some(sent) => after == before && r == (
                AuthState::LogonPinCheck { logon },
                Action::VerifyPin {
                    pin,
                    pin_grid_seed: logon.values.pin_grid_seed,
                    server_salt: logon.values.pin_salt,
                    client_salt: sent.pin_salt,
                    client_hash: sent.pin_hash,
                },
            ),
        },
        None => from_matrix_card_stage(logon, before, r, after),
    }
}

/// Installs the session and answers with the server's proof.
fn install_session<S: KeyStorage>(logon: ProvenLogon, store: &mut S) -> (r: (AuthState, Action))
    ensures
        installed(logon, old(store).sessions(), r, final(store).sessions()),
{
    store.add_key(logon.challenge.account_name.clone(), logon.server);
    (
        AuthState::LogonProofSent { challenge: logon.challenge },
        Action::Send(
            ServerMessage::LogonProofSuccess {
                account_flag: 0,
                hardware_survey_id: 0,
                server_proof: logon.server_proof,
                unknown: 0,
            },
        ),
    )
}

/// Goes on with the matrix card, the PIN being settled.
fn check_matrix_card<S: KeyStorage>(logon: ProvenLogon, store: &mut S) -> (r: (AuthState, Action))
    ensures
        from_matrix_card_stage(logon, old(store).sessions(), r, final(store).sessions()),
{
    let asked = match &logon.credentials.matrix_card {
        Some(card) => Some(card.challenge_count),
        None => None,
    };
    match asked {
        Some(challenge_count) => match logon.client.matrix_card_proof {
            None => (
                AuthState::Failing {
                    error: InternalError::MatrixCardDataNotSentForUser { message: logon.challenge },
                },
                Action::Send(ServerMessage::LogonProofFailIncorrectPassword),
            ),
            Some(client_proof) => {
                let action = Action::VerifyMatrixCard {
                    challenge_count,
                    seed: logon.values.matrix_card_seed,
                    session_key: session_key(&logon.server),
                    client_proof,
                };
                (AuthState::LogonMatrixCardCheck { logon }, action)
            },
        },
        None => install_session(logon, store),
    }
}

/// Checks what the second factors of the account ask of the client's proof,
/// the PIN before the matrix card, and installs the session if they ask
/// nothing more.
pub fn check_2fa_login_details<S: KeyStorage>(logon: ProvenLogon, store: &mut S) -> (r: (AuthState, Action))
    ensures
        from_pin_stage(logon, old(store).sessions(), r, final(store).sessions()),
{
    match logon.credentials.pin {
        Some(pin) => match logon.client.pin {
            None => (
                AuthState::Failing {
                    error: InternalError::PinNotSentForUser { message: logon.challenge },
                },
                Action::Send(ServerMessage::LogonProofFailIncorrectPassword),
            ),
            Some(sent) => {
                let action = Action::VerifyPin {
                    pin,
                    pin_grid_seed: logon.values.pin_grid_seed,
                    server_salt: logon.values.pin_salt,
                    client_salt: sent.pin_salt,
                    client_hash: sent.pin_hash,
                };
                (AuthState::LogonPinCheck { logon }, action)
            },
        },
        None => check_matrix_card(logon, store),
    }
}

/// The integrity hash over the game files is here, or `None` if no files
/// are offered. A hash that differs from the client's is refused as an
/// invalid version; otherwise the second factors are next.
pub fn logon_integrity<S: KeyStorage>(logon: ProvenLogon, hash: Option<[u8; 20]>, store: &mut S) -> (r: (
    AuthState,
    Action,
))
    ensures
        match hash {
            Some(expected) if expected@ != logon.client.crc_hash@ => final(store).sessions() == old(store).sessions()
                && r == refusal(
                ServerMessage::LogonProofFailVersionInvalid,
                InternalError::InvalidIntegrityCheckForUser { message: logon.challenge },
            ),
            _ => from_pin_stage(logon, old(store).sessions(), r, final(store).sessions()),
        },
{
    let mismatch = match hash {
        Some(expected) => !same_hash(&expected, &logon.client.crc_hash),
        None => false,
    };
    if mismatch {
        (
            AuthState::Failing {
                error: InternalError::InvalidIntegrityCheckForUser { message: logon.challenge },
            },
            Action::Send(ServerMessage::LogonProofFailVersionInvalid),
        )
    } else {
        check_2fa_login_details(logon, store)
    }
}

/// The PIN has been verified: a wrong one is refused as a wrong password,
/// after a right one the matrix card is next.
pub fn logon_pin_verified<S: KeyStorage>(logon: ProvenLogon, verified: bool, store: &mut S) -> (r: (
    AuthState,
    Action,
))
    ensures
        verified ==> from_matrix_card_stage(logon, old(store).sessions(), r, final(store).sessions()),
        !verified ==> final(store).sessions() == old(store).sessions() && r == refusal(
            ServerMessage::LogonProofFailIncorrectPassword,
            InternalError::PinInvalidForUser { message: logon.challenge },
        ),
{
    if verified {
        check_matrix_card(logon, store)
    } else {
        (
            AuthState::Failing { error: InternalError::PinInvalidForUser { message: logon.challenge } },
            Action::Send(ServerMessage::LogonProofFailIncorrectPassword),
        )
    }
}

/// The matrix card proof has been verified: a wrong one is refused as a
/// wrong password, after a right one the session is installed.
pub fn logon_matrix_card_verified<S: KeyStorage>(logon: ProvenLogon, verified: bool, store: &mut S) -> (r: (
    AuthState,
    Action,
))
    ensures
        verified ==> installed(logon, old(store).sessions(), r, final(store).sessions()),
        !verified ==> final(store).sessions() == old(store).sessions() && r == refusal(
            ServerMessage::LogonProofFailIncorrectPassword,
            InternalError::MatrixCardInvalidForUser { message: logon.challenge },
        ),
{
    if verified {
        install_session(logon, store)
    } else {
        (
            AuthState::Failing {
                error: InternalError::MatrixCardInvalidForUser { message: logon.challenge },
            },
            Action::Send(ServerMessage::LogonProofFailIncorrectPassword),
        )
    }
}

} // verus!
