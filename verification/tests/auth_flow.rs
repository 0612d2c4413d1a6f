use warthog::auth::{Action, AuthState, ChallengeValues, Event};
use warthog::credentials::ProviderImpl;
use warthog::error::{ExpectedOpcode, ExpectedOpcodeError, InternalError};
use warthog::keys::{KeyImpl, KeyStorage};
use warthog::logon::{is_valid_password_verifier, logon_challenge, PendingProof};
use warthog::messages::{ClientOpcodes, ServerOpcodes};
use warthog::protocol::{
    ClientMessage, Credentials, LoginResult, LogonChallenge, LogonProof, MatrixCard,
    MatrixCardChallenge, MatrixCardOptions, Options, PinChallenge, PinProof, ReconnectChallenge,
    ReconnectProof, SecurityFlag, ServerMessage, Version,
};
use warthog::realm_list::{Population, Realm, RealmListImpl};
use warthog::reply::{connection_closed, handle_reply};
use warthog::srp::InvalidPublicKeyError;
use wow_srp::client::{SrpClient, SrpClientChallenge};
use wow_srp::normalized_string::NormalizedString;
use wow_srp::PublicKey;

const OPTIONS: Options = Options { randomize_pin_grid: false, max_concurrent_users: 10000 };

const VALUES: ChallengeValues = ChallengeValues {
    crc_salt: [7; 16],
    pin_grid_seed: 0xdead_beef,
    pin_salt: [9; 16],
    matrix_card_seed: 0x0123_4567_89ab_cdef,
};

fn vanilla_1_12(account_name: String) -> LogonChallenge {
    LogonChallenge {
        protocol_version: 3,
        version: Version { major: 1, minor: 12, patch: 1, build: 5875 },
        platform: 0x0078_3836,
        os: 0x0057_696e,
        locale: 0x656e_4742,
        utc_timezone_offset: 60,
        client_ip_address: [127, 0, 0, 1],
        account_name,
    }
}

fn reconnect_1_12(account_name: String) -> ReconnectChallenge {
    ReconnectChallenge {
        protocol_version: 2,
        version: Version { major: 1, minor: 12, patch: 1, build: 5875 },
        platform: 0x0078_3836,
        os: 0x0057_696e,
        locale: 0x656e_4742,
        utc_timezone_offset: 60,
        client_ip_address: [127, 0, 0, 1],
        account_name,
    }
}

fn step(state: AuthState, event: Event, store: &mut KeyImpl) -> (AuthState, Action) {
    assert!(state.awaits(&event), "{state:?} does not wait for {event:?}");
    state.step(event, store, &OPTIONS)
}

fn credentials_of(name: &str) -> Credentials {
    ProviderImpl::new(false, false).get_user(name, &vanilla_1_12(name.to_string())).unwrap()
}

/// Runs a logon up to the point where the challenge has gone out, and makes
/// the client's half of the proof for `password`.
fn up_to_proof(
    name: &str,
    password: &str,
    credentials: Credentials,
    store: &mut KeyImpl,
) -> (AuthState, SrpClientChallenge) {
    let (state, action) = AuthState::start();
    assert_eq!(action, Action::ReadInitial);
    let challenge = vanilla_1_12(name.to_string());
    let (state, action) =
        step(state, Event::Message(ClientMessage::LogonChallenge(challenge.clone())), store);
    assert_eq!(action, Action::GetPatch);
    assert_eq!(state.challenge(), Some(&challenge));
    let (state, action) = step(state, Event::Patch(None), store);
    assert_eq!(action, Action::GetUser);
    let salt = credentials.salt;
    let (state, action) = step(state, Event::User(Some(credentials)), store);
    assert_eq!(action, Action::DrawChallengeValues);
    let (state, action) = step(state, Event::ChallengeValues(VALUES), store);
    let Action::Send(ServerMessage::LogonChallengeSuccess {
        crc_salt,
        generator,
        large_safe_prime,
        salt: sent_salt,
        security_flag: _,
        server_public_key,
    }) = action
    else {
        panic!("no challenge: {action:?}");
    };
    assert_eq!(crc_salt, VALUES.crc_salt);
    assert_eq!(generator, 7);
    assert_eq!(generator, wow_srp::GENERATOR);
    assert_eq!(large_safe_prime, wow_srp::LARGE_SAFE_PRIME_LITTLE_ENDIAN);
    assert_eq!(
        large_safe_prime,
        [
            0xb7, 0x9b, 0x3e, 0x2a, 0x87, 0x82, 0x3c, 0xab, 0x8f, 0x5e, 0xbf, 0xbf, 0x8e, 0xb1, 0x01,
            0x08, 0x53, 0x50, 0x06, 0x29, 0x8b, 0x5b, 0xad, 0xbd, 0x5b, 0x53, 0xe1, 0x89, 0x5e, 0x64,
            0x4b, 0x89
        ]
    );
    assert_eq!(sent_salt, salt);
    let client = SrpClientChallenge::new(
        NormalizedString::new(name).unwrap(),
        NormalizedString::new(password).unwrap(),
        generator,
        large_safe_prime,
        PublicKey::from_le_bytes(server_public_key).unwrap(),
        sent_salt,
    );
    let (state, action) = step(state, Event::Sent, store);
    assert_eq!(action, Action::ReadLogonProof);
    (state, client)
}

fn proof_of(client: &SrpClientChallenge) -> LogonProof {
    LogonProof {
        client_public_key: *client.client_public_key(),
        client_proof: *client.client_proof(),
        crc_hash: [3; 20],
        pin: None,
        matrix_card_proof: None,
    }
}

/// Logs `name` on with its name as the password and asks for the realm list once.
fn log_on(name: &str, store: &mut KeyImpl, registry: &RealmListImpl) -> (SrpClient, Vec<Realm>) {
    let (state, client) = up_to_proof(name, name, credentials_of(name), store);
    let proof = proof_of(&client);
    let (state, action) = step(state, Event::Message(ClientMessage::LogonProof(proof)), store);
    assert_eq!(
        action,
        Action::CheckIntegrity {
            crc_salt: VALUES.crc_salt,
            client_public_key: proof.client_public_key
        }
    );
    let (state, action) = step(state, Event::Integrity(None), store);
    let Action::Send(ServerMessage::LogonProofSuccess {
        account_flag,
        hardware_survey_id,
        server_proof,
        unknown,
    }) = action
    else {
        panic!("no success: {action:?}");
    };
    assert_eq!((account_flag, hardware_survey_id, unknown), (0, 0, 0));
    let client = client.verify_server_proof(server_proof).unwrap();
    assert!(store.get_key_for_user(name).is_some());
    let (state, action) = step(state, Event::Sent, store);
    assert_eq!(action, Action::ReadRealmList);
    let (state, action) = step(state, Event::Message(ClientMessage::RealmList), store);
    assert_eq!(action, Action::GetRealmList);
    assert_eq!(state.challenge(), Some(&vanilla_1_12(name.to_string())));
    let (state, action) = step(state, Event::Realms(registry.get_realm_list()), store);
    let Action::Send(ServerMessage::RealmList { realms }) = action else {
        panic!("no realm list: {action:?}");
    };
    let (state, action) = step(state, Event::Sent, store);
    assert_eq!(action, Action::ReadRealmList);
    let (state, action) = step(state, Event::ReadFailed(ExpectedOpcodeError::Io), store);
    assert_eq!(action, Action::Finish(Ok(())));
    assert!(matches!(state, AuthState::Finished));
    (client, realms)
}

fn register_realm(
    store: &mut KeyImpl,
    registry: &mut RealmListImpl,
    owned: &mut Option<u8>,
    name: String,
    address: String,
) -> u8 {
    let request = ServerOpcodes::RegisterRealm {
        name,
        address,
        population: 200.0f32.to_bits(),
        locked: false,
        flags: 0,
        category: 0,
        realm_type: 0,
        version_major: 0,
        version_minor: 0,
        version_patch: 0,
        version_build: 0,
    };
    match handle_reply(request, store, registry, owned) {
        ClientOpcodes::SessionKeyAnswer { .. } => panic!(),
        ClientOpcodes::RegisterRealmReply { realm_id } => realm_id.unwrap(),
    }
}

#[test]
fn works() {
    let mut store = KeyImpl::new();
    let mut registry = RealmListImpl::new();

    {
        let (_, realms) = log_on("A", &mut store, &registry);
        assert!(realms.is_empty());
    }

    let mut reply = None;
    let realm_id = register_realm(
        &mut store,
        &mut registry,
        &mut reply,
        "Test Realm".to_string(),
        "localhost:8085".to_string(),
    );

    {
        let (_, realms) = log_on("A", &mut store, &registry);
        match realms.as_slice() {
            [realm] => {
                assert_eq!(realm.population, Population::GreenRecommended);
                assert_eq!(realm.locked, false);
                assert_eq!(realm.name, "Test Realm");
                assert_eq!(realm.address, "localhost:8085");
                assert_eq!(realm.realm_id, realm_id);
            }
            _ => panic!(),
        }
        assert!(!realms.is_empty());
    }

    let mut reply2 = None;
    let realm_id2 = register_realm(
        &mut store,
        &mut registry,
        &mut reply2,
        "Test Realm2".to_string(),
        "localhost:8088".to_string(),
    );

    {
        let (_, realms) = log_on("A", &mut store, &registry);
        match realms.as_slice() {
            [realm, realm2] => {
                let (first, second) =
                    if realm.realm_id == 0 { (&realm, &realm2) } else { (&realm2, &realm) };

                assert_eq!(first.population, Population::GreenRecommended);
                assert_eq!(first.locked, false);
                assert_eq!(first.name, "Test Realm");
                assert_eq!(first.address, "localhost:8085");
                assert_eq!(first.realm_id, realm_id);

                assert_eq!(second.population, Population::GreenRecommended);
                assert_eq!(second.locked, false);
                assert_eq!(second.name, "Test Realm2");
                assert_eq!(second.address, "localhost:8088");
                assert_eq!(second.realm_id, realm_id2);
            }
            _ => panic!(),
        }
        assert!(!realms.is_empty());
    }
}

#[test]
fn register_realms() {
    let mut store = KeyImpl::new();
    let mut registry = RealmListImpl::new();

    {
        let (_, realms) = log_on("A", &mut store, &registry);
        assert!(realms.is_empty());
    }

    const REALM_NAME: &str = "Test Realm";
    const REALM_ADDRESS: &str = "localhost:8085";

    let mut reply = None;
    let realm_id = register_realm(
        &mut store,
        &mut registry,
        &mut reply,
        REALM_NAME.to_string(),
        REALM_ADDRESS.to_string(),
    );
    assert_eq!(realm_id, 0);
    assert_eq!(reply, Some(0));

    {
        let (_, realms) = log_on("A", &mut store, &registry);
        match realms.as_slice() {
            [realm] => {
                assert_eq!(realm.population, Population::GreenRecommended);
                assert_eq!(realm.locked, false);
                assert_eq!(realm.name, REALM_NAME);
                assert_eq!(realm.address, REALM_ADDRESS);
                assert_eq!(realm.realm_id, realm_id);
            }
            _ => panic!(),
        }
        assert!(!realms.is_empty());
    }

    const REALM2_NAME: &str = "Test Realm2";
    const REALM2_ADDRESS: &str = "localhost:8088";

    let mut reply2 = None;
    let realm_id2 = register_realm(
        &mut store,
        &mut registry,
        &mut reply2,
        REALM2_NAME.to_string(),
        REALM2_ADDRESS.to_string(),
    );
    assert_eq!(realm_id2, 1);

    {
        let (_, realms) = log_on("A", &mut store, &registry);
        match realms.as_slice() {
            [realm, realm2] => {
                let (first, second) =
                    if realm.realm_id == 0 { (&realm, &realm2) } else { (&realm2, &realm) };

                assert_eq!(first.population, Population::GreenRecommended);
                assert_eq!(first.locked, false);
                assert_eq!(first.name, REALM_NAME);
                assert_eq!(first.address, REALM_ADDRESS);
                assert_eq!(first.realm_id, realm_id);

                assert_eq!(second.population, Population::GreenRecommended);
                assert_eq!(second.locked, false);
                assert_eq!(second.name, REALM2_NAME);
                assert_eq!(second.address, REALM2_ADDRESS);
                assert_eq!(second.realm_id, realm_id2);
            }
            _ => panic!(),
        }
        assert!(!realms.is_empty());
    }

    // The connection that registered the first realm closes.
    connection_closed(&mut registry, reply);
    {
        let (_, realms) = log_on("A", &mut store, &registry);
        match realms.as_slice() {
            [realm] => {
                assert_eq!(realm.realm_id, 1);
                assert_eq!(realm.name, REALM2_NAME);
            }
            _ => panic!(),
        }
    }
}

#[test]
fn happy_path_vanilla_1_12() {
    let mut store = KeyImpl::new();
    let registry = RealmListImpl::new();
    assert!(store.get_key_for_user("A").is_none());
    let (client, realms) = log_on("A", &mut store, &registry);
    assert!(realms.is_empty());
    let session = store.get_key_for_user("A").unwrap();
    assert_eq!(session.session_key(), client.session_key());
    assert_eq!(store.session_key_for_user("A"), Some(*client.session_key()));
    assert_eq!(store.session_key_for_user("B"), None);
}

#[test]
fn the_broker_answers_with_the_key_of_the_stored_session() {
    let mut store = KeyImpl::new();
    let mut registry = RealmListImpl::new();
    let mut owned = None;
    let (client, _) = log_on("A", &mut store, &registry);
    let reply = handle_reply(
        ServerOpcodes::RequestSessionKey { name: "A".to_string() },
        &mut store,
        &mut registry,
        &mut owned,
    );
    assert_eq!(
        reply,
        ClientOpcodes::SessionKeyAnswer {
            name: "A".to_string(),
            session_key: Some(*client.session_key())
        }
    );
    let reply = handle_reply(
        ServerOpcodes::RequestSessionKey { name: "B".to_string() },
        &mut store,
        &mut registry,
        &mut owned,
    );
    assert_eq!(reply, ClientOpcodes::SessionKeyAnswer { name: "B".to_string(), session_key: None });
    assert_eq!(owned, None);
    assert!(registry.get_realm_list().is_empty());
    let stored = KeyStorage::get_key_for_user(&mut store, "A").unwrap();
    assert_eq!(stored.session_key(), client.session_key());
}

#[test]
fn a_name_that_cannot_be_normalized_is_refused() {
    for name in ["", "ABCDEFGHIJKLMNOPQ", "\u{17e}", "A\nB", "A\u{7f}"] {
        let mut store = KeyImpl::new();
        let (state, _) = AuthState::start();
        let challenge = vanilla_1_12(name.to_string());
        let (state, action) = step(
            state,
            Event::Message(ClientMessage::LogonChallenge(challenge.clone())),
            &mut store,
        );
        assert_eq!(action, Action::Send(ServerMessage::LogonChallengeFailUnknownAccount));
        let (state, action) = step(state, Event::Sent, &mut store);
        assert_eq!(action, Action::Finish(Err(InternalError::UsernameInvalid { message: challenge })));
        assert!(matches!(state, AuthState::Finished));
        assert!(store.get_key_for_user(name).is_none());
    }
    for name in ["A", "ABCDEFGHIJKLMNOP", "a b~!"] {
        let mut store = KeyImpl::new();
        let (state, _) = AuthState::start();
        let (_, action) = step(
            state,
            Event::Message(ClientMessage::LogonChallenge(vanilla_1_12(name.to_string()))),
            &mut store,
        );
        assert_eq!(action, Action::GetPatch);
    }
}

#[test]
fn unknown_account() {
    let mut store = KeyImpl::new();
    let (state, _) = AuthState::start();
    let challenge = vanilla_1_12("A".to_string());
    let (state, _) =
        step(state, Event::Message(ClientMessage::LogonChallenge(challenge.clone())), &mut store);
    let (state, _) = step(state, Event::Patch(None), &mut store);
    let (state, action) = step(state, Event::User(None), &mut store);
    assert_eq!(action, Action::Send(ServerMessage::LogonChallengeFailUnknownAccount));
    let (_, action) = step(state, Event::Sent, &mut store);
    assert_eq!(action, Action::Finish(Err(InternalError::UsernameNotFound { message: challenge })));
    assert!(store.get_key_for_user("A").is_none());
}

#[test]
fn an_account_whose_verifier_cannot_be_used_is_unknown() {
    for verifier in [[0u8; 32], wow_srp::LARGE_SAFE_PRIME_LITTLE_ENDIAN] {
        let mut store = KeyImpl::new();
        let (state, _) = AuthState::start();
        let challenge = vanilla_1_12("A".to_string());
        let (state, _) = step(
            state,
            Event::Message(ClientMessage::LogonChallenge(challenge.clone())),
            &mut store,
        );
        let (state, _) = step(state, Event::Patch(None), &mut store);
        let mut credentials = credentials_of("A");
        credentials.password_verifier = verifier;
        let (state, action) = step(state, Event::User(Some(credentials.clone())), &mut store);
        assert_eq!(action, Action::Send(ServerMessage::LogonChallengeFailUnknownAccount));
        let (_, action) = step(state, Event::Sent, &mut store);
        assert_eq!(
            action,
            Action::Finish(Err(InternalError::UsernameNotFound { message: challenge.clone() }))
        );

        let username = NormalizedString::new("A").unwrap();
        let (state, action) = logon_challenge(challenge.clone(), username, credentials, VALUES, &OPTIONS);
        assert_eq!(action, Action::Send(ServerMessage::LogonChallengeFailUnknownAccount));
        assert!(matches!(
            state,
            AuthState::Failing { error: InternalError::UsernameNotFound { .. } }
        ));
        assert!(!is_valid_password_verifier(&verifier));
        assert!(PendingProof::begin(NormalizedString::new("A").unwrap(), verifier, [1; 32]).is_none());
    }
    let mut almost = wow_srp::LARGE_SAFE_PRIME_LITTLE_ENDIAN;
    almost[31] = 0;
    assert!(is_valid_password_verifier(&almost));
    let mut one = [0u8; 32];
    one[0] = 1;
    assert!(is_valid_password_verifier(&one));
    assert!(PendingProof::begin(NormalizedString::new("A").unwrap(), one, [1; 32]).is_some());
}

#[test]
fn a_refusal_that_cannot_be_sent_ends_with_io() {
    let mut store = KeyImpl::new();
    let (state, _) = AuthState::start();
    let (state, _) = step(
        state,
        Event::Message(ClientMessage::LogonChallenge(vanilla_1_12("A".to_string()))),
        &mut store,
    );
    let (state, _) = step(state, Event::Patch(None), &mut store);
    let (state, _) = step(state, Event::User(None), &mut store);
    let (state, action) = step(state, Event::IoFailed, &mut store);
    assert_eq!(action, Action::Finish(Err(InternalError::Io)));
    assert!(matches!(state, AuthState::Finished));
}

#[test]
fn wrong_password() {
    let mut store = KeyImpl::new();
    let (state, client) = up_to_proof("A", "B", credentials_of("A"), &mut store);
    let (state, action) =
        step(state, Event::Message(ClientMessage::LogonProof(proof_of(&client))), &mut store);
    assert_eq!(action, Action::Send(ServerMessage::LogonProofFailIncorrectPassword));
    let (_, action) = step(state, Event::Sent, &mut store);
    assert_eq!(
        action,
        Action::Finish(Err(InternalError::InvalidPasswordForUser {
            message: vanilla_1_12("A".to_string())
        }))
    );
    assert!(store.get_key_for_user("A").is_none());
}

#[test]
fn a_failed_logon_leaves_an_earlier_session_untouched() {
    let mut store = KeyImpl::new();
    let registry = RealmListImpl::new();
    let (first, _) = log_on("A", &mut store, &registry);
    let (state, client) = up_to_proof("A", "WRONG", credentials_of("A"), &mut store);
    let (state, _) =
        step(state, Event::Message(ClientMessage::LogonProof(proof_of(&client))), &mut store);
    let _ = step(state, Event::Sent, &mut store);
    assert_eq!(store.session_key_for_user("A"), Some(*first.session_key()));
}

#[test]
fn a_later_logon_replaces_the_session() {
    let mut store = KeyImpl::new();
    let registry = RealmListImpl::new();
    let (first, _) = log_on("A", &mut store, &registry);
    let (other, _) = log_on("B", &mut store, &registry);
    let (second, _) = log_on("A", &mut store, &registry);
    assert_ne!(first.session_key(), second.session_key());
    assert_eq!(store.session_key_for_user("A"), Some(*second.session_key()));
    assert_eq!(store.session_key_for_user("B"), Some(*other.session_key()));
}

#[test]
fn a_key_that_is_no_public_key_ends_the_connection() {
    let cases = [
        ([0u8; 32], InvalidPublicKeyError::PublicKeyIsZero),
        (
            wow_srp::LARGE_SAFE_PRIME_LITTLE_ENDIAN,
            InvalidPublicKeyError::PublicKeyModLargeSafePrimeIsZero,
        ),
    ];
    for (key, err) in cases {
        let mut store = KeyImpl::new();
        let (state, client) = up_to_proof("A", "A", credentials_of("A"), &mut store);
        let mut proof = proof_of(&client);
        proof.client_public_key = key;
        let (state, action) =
            step(state, Event::Message(ClientMessage::LogonProof(proof)), &mut store);
        assert_eq!(
            action,
            Action::Finish(Err(InternalError::InvalidPublicKey {
                message: vanilla_1_12("A".to_string()),
                err
            }))
        );
        assert!(matches!(state, AuthState::Finished));
        assert!(store.get_key_for_user("A").is_none());
    }
}

#[test]
fn anything_but_a_logon_proof_ends_the_connection() {
    let mut store = KeyImpl::new();
    let (state, _) = up_to_proof("A", "A", credentials_of("A"), &mut store);
    let (_, action) = step(state, Event::Message(ClientMessage::RealmList), &mut store);
    assert_eq!(
        action,
        Action::Finish(Err(InternalError::ExpectedOpcodeError {
            expected: ExpectedOpcode::LogonProof,
            err: ExpectedOpcodeError::Opcode(0x10)
        }))
    );
    let (state, _) = up_to_proof("A", "A", credentials_of("A"), &mut store);
    let (_, action) = step(state, Event::ReadFailed(ExpectedOpcodeError::Parse), &mut store);
    assert_eq!(
        action,
        Action::Finish(Err(InternalError::ExpectedOpcodeError {
            expected: ExpectedOpcode::LogonProof,
            err: ExpectedOpcodeError::Parse
        }))
    );
}

#[test]
fn the_first_message_must_open_a_logon_or_a_reconnect() {
    let mut store = KeyImpl::new();
    let (state, _) = AuthState::start();
    let (_, action) = step(state, Event::Message(ClientMessage::XferAccept), &mut store);
    assert_eq!(
        action,
        Action::Finish(Err(InternalError::ExpectedOpcodeError {
            expected: ExpectedOpcode::LoginOrReconnect,
            err: ExpectedOpcodeError::Opcode(0x32)
        }))
    );
    let (state, _) = AuthState::start();
    let (_, action) = step(state, Event::ReadFailed(ExpectedOpcodeError::Io), &mut store);
    assert_eq!(
        action,
        Action::Finish(Err(InternalError::ExpectedOpcodeError {
            expected: ExpectedOpcode::LoginOrReconnect,
            err: ExpectedOpcodeError::Io
        }))
    );
}

#[test]
fn a_wrong_integrity_hash_is_an_invalid_version() {
    let mut store = KeyImpl::new();
    let (state, client) = up_to_proof("A", "A", credentials_of("A"), &mut store);
    let (state, _) =
        step(state, Event::Message(ClientMessage::LogonProof(proof_of(&client))), &mut store);
    let (state, action) = step(state, Event::Integrity(Some([4; 20])), &mut store);
    assert_eq!(action, Action::Send(ServerMessage::LogonProofFailVersionInvalid));
    let (_, action) = step(state, Event::Sent, &mut store);
    assert_eq!(
        action,
        Action::Finish(Err(InternalError::InvalidIntegrityCheckForUser {
            message: vanilla_1_12("A".to_string())
        }))
    );
    assert!(store.get_key_for_user("A").is_none());
}

#[test]
fn a_matching_integrity_hash_lets_the_logon_pass() {
    let mut store = KeyImpl::new();
    let (state, client) = up_to_proof("A", "A", credentials_of("A"), &mut store);
    let (state, _) =
        step(state, Event::Message(ClientMessage::LogonProof(proof_of(&client))), &mut store);
    let (_, action) = step(state, Event::Integrity(Some([3; 20])), &mut store);
    assert!(matches!(action, Action::Send(ServerMessage::LogonProofSuccess { .. })));
    assert!(store.get_key_for_user("A").is_some());
}

fn with_factors(name: &str, pin: Option<u32>, card: bool) -> Credentials {
    let mut credentials = credentials_of(name);
    credentials.pin = pin;
    credentials.matrix_card = if card {
        Some(MatrixCardOptions {
            matrix_card: MatrixCard::from_data(2, 8, 8, vec![0; 128]).unwrap(),
            challenge_count: 1,
        })
    } else {
        None
    };
    credentials
}

#[test]
fn the_challenge_asks_for_the_factors_of_the_account() {
    let mut store = KeyImpl::new();
    let (state, _) = AuthState::start();
    let (state, _) = step(
        state,
        Event::Message(ClientMessage::LogonChallenge(vanilla_1_12("A".to_string()))),
        &mut store,
    );
    let (state, _) = step(state, Event::Patch(None), &mut store);
    let (state, _) = step(state, Event::User(Some(with_factors("A", Some(1234), true))), &mut store);
    let (_, action) = state.step(
        Event::ChallengeValues(VALUES),
        &mut store,
        &Options { randomize_pin_grid: true, max_concurrent_users: 1 },
    );
    let Action::Send(ServerMessage::LogonChallengeSuccess { security_flag, .. }) = action else {
        panic!();
    };
    assert_eq!(
        security_flag,
        SecurityFlag {
            pin: Some(PinChallenge { pin_grid_seed: 0xdead_beef, pin_salt: [9; 16] }),
            matrix_card: Some(MatrixCardChallenge {
                challenge_count: 1,
                digit_count: 2,
                height: 8,
                seed: 0x0123_4567_89ab_cdef,
                width: 8
            }),
        }
    );

    let (state, _) = up_to_proof("A", "A", with_factors("A", Some(1234), false), &mut store);
    drop(state);
    let (state, _) = AuthState::start();
    let (state, _) = step(
        state,
        Event::Message(ClientMessage::LogonChallenge(vanilla_1_12("A".to_string()))),
        &mut store,
    );
    let (state, _) = step(state, Event::Patch(None), &mut store);
    let (state, _) = step(state, Event::User(Some(with_factors("A", Some(1234), false))), &mut store);
    let (_, action) = step(state, Event::ChallengeValues(VALUES), &mut store);
    let Action::Send(ServerMessage::LogonChallengeSuccess { security_flag, .. }) = action else {
        panic!();
    };
    assert_eq!(
        security_flag,
        SecurityFlag {
            pin: Some(PinChallenge { pin_grid_seed: 0, pin_salt: [9; 16] }),
            matrix_card: None
        }
    );
}

fn refused_as_wrong_password(state: AuthState, action: Action, store: &mut KeyImpl) -> InternalError {
    assert_eq!(action, Action::Send(ServerMessage::LogonProofFailIncorrectPassword));
    let (_, action) = step(state, Event::Sent, store);
    assert!(store.get_key_for_user("A").is_none());
    match action {
        Action::Finish(Err(err)) => err,
        other => panic!("{other:?}"),
    }
}

#[test]
fn second_factors() {
    let message = vanilla_1_12("A".to_string());
    let pin_proof = PinProof { pin_hash: [5; 20], pin_salt: [6; 16] };

    // A PIN is required and none was sent.
    let mut store = KeyImpl::new();
    let (state, client) = up_to_proof("A", "A", with_factors("A", Some(1234), true), &mut store);
    let (state, _) =
        step(state, Event::Message(ClientMessage::LogonProof(proof_of(&client))), &mut store);
    let (state, action) = step(state, Event::Integrity(None), &mut store);
    assert_eq!(
        refused_as_wrong_password(state, action, &mut store),
        InternalError::PinNotSentForUser { message: message.clone() }
    );

    // The PIN is wrong.
    let (state, client) = up_to_proof("A", "A", with_factors("A", Some(1234), true), &mut store);
    let mut proof = proof_of(&client);
    proof.pin = Some(pin_proof);
    proof.matrix_card_proof = Some([8; 20]);
    let (state, _) = step(state, Event::Message(ClientMessage::LogonProof(proof)), &mut store);
    let (state, action) = step(state, Event::Integrity(None), &mut store);
    assert_eq!(
        action,
        Action::VerifyPin {
            pin: 1234,
            pin_grid_seed: 0,
            server_salt: [9; 16],
            client_salt: [6; 16],
            client_hash: [5; 20]
        }
    );
    let (state, action) = step(state, Event::Verified(false), &mut store);
    assert_eq!(
        refused_as_wrong_password(state, action, &mut store),
        InternalError::PinInvalidForUser { message: message.clone() }
    );

    // The PIN is right and no card proof was sent.
    let (state, client) = up_to_proof("A", "A", with_factors("A", Some(1234), true), &mut store);
    let mut proof = proof_of(&client);
    proof.pin = Some(pin_proof);
    let (state, _) = step(state, Event::Message(ClientMessage::LogonProof(proof)), &mut store);
    let (state, _) = step(state, Event::Integrity(None), &mut store);
    let (state, action) = step(state, Event::Verified(true), &mut store);
    assert_eq!(
        refused_as_wrong_password(state, action, &mut store),
        InternalError::MatrixCardDataNotSentForUser { message: message.clone() }
    );

    // The card proof is wrong.
    let (state, client) = up_to_proof("A", "A", with_factors("A", None, true), &mut store);
    let mut proof = proof_of(&client);
    proof.matrix_card_proof = Some([8; 20]);
    let (state, _) = step(state, Event::Message(ClientMessage::LogonProof(proof)), &mut store);
    let (state, action) = step(state, Event::Integrity(None), &mut store);
    let Action::VerifyMatrixCard { challenge_count, seed, session_key: _, client_proof } = action
    else {
        panic!("{action:?}");
    };
    assert_eq!((challenge_count, seed, client_proof), (1, VALUES.matrix_card_seed, [8; 20]));
    assert_eq!(state.matrix_card(), Some(&MatrixCard::from_data(2, 8, 8, vec![0; 128]).unwrap()));
    let (state, action) = step(state, Event::Verified(false), &mut store);
    assert_eq!(
        refused_as_wrong_password(state, action, &mut store),
        InternalError::MatrixCardInvalidForUser { message }
    );

    // Both factors are right.
    let (state, client) = up_to_proof("A", "A", with_factors("A", Some(1234), true), &mut store);
    let mut proof = proof_of(&client);
    proof.pin = Some(pin_proof);
    proof.matrix_card_proof = Some([8; 20]);
    let (state, _) = step(state, Event::Message(ClientMessage::LogonProof(proof)), &mut store);
    let (state, _) = step(state, Event::Integrity(None), &mut store);
    let (state, action) = step(state, Event::Verified(true), &mut store);
    let Action::VerifyMatrixCard { session_key, .. } = action else {
        panic!("{action:?}");
    };
    assert!(store.get_key_for_user("A").is_none());
    let (_, action) = step(state, Event::Verified(true), &mut store);
    let Action::Send(ServerMessage::LogonProofSuccess { server_proof, .. }) = action else {
        panic!("{action:?}");
    };
    let client = client.verify_server_proof(server_proof).unwrap();
    assert_eq!(&session_key, client.session_key());
    assert_eq!(store.session_key_for_user("A"), Some(session_key));
}

#[test]
fn a_success_that_cannot_be_sent_leaves_the_session_stored() {
    let mut store = KeyImpl::new();
    let (state, client) = up_to_proof("A", "A", credentials_of("A"), &mut store);
    let (state, _) =
        step(state, Event::Message(ClientMessage::LogonProof(proof_of(&client))), &mut store);
    let (state, _) = step(state, Event::Integrity(None), &mut store);
    let (_, action) = step(state, Event::IoFailed, &mut store);
    assert_eq!(action, Action::Finish(Err(InternalError::Io)));
    assert!(store.get_key_for_user("A").is_some());
}

#[test]
fn reconnect_without_prior_logon() {
    let mut store = KeyImpl::new();
    let (state, _) = AuthState::start();
    let challenge = reconnect_1_12("B".to_string());
    let (state, action) = step(
        state,
        Event::Message(ClientMessage::ReconnectChallenge(challenge.clone())),
        &mut store,
    );
    assert_eq!(action, Action::Send(ServerMessage::ReconnectChallengeFailUnknownAccount));
    let (_, action) = step(state, Event::Sent, &mut store);
    assert_eq!(
        action,
        Action::Finish(Err(InternalError::InvalidUserAttemptedReconnect { message: challenge }))
    );
}

fn up_to_reconnect_proof(
    client: &SrpClient,
    store: &mut KeyImpl,
) -> (AuthState, ReconnectProof) {
    let (state, _) = AuthState::start();
    let (state, action) = step(
        state,
        Event::Message(ClientMessage::ReconnectChallenge(reconnect_1_12("A".to_string()))),
        store,
    );
    let Action::Send(ServerMessage::ReconnectChallengeSuccess { challenge_data, checksum_salt }) =
        action
    else {
        panic!("{action:?}");
    };
    assert_eq!(checksum_salt, [0; 16]);
    assert_eq!(&challenge_data, store.get_key_for_user("A").unwrap().reconnect_challenge_data());
    let values = client.calculate_reconnect_values(challenge_data);
    let (state, action) = step(state, Event::Sent, store);
    assert_eq!(action, Action::ReadReconnectProof);
    let proof = ReconnectProof {
        proof_data: values.challenge_data,
        client_proof: values.proof,
        client_checksum: [1; 20],
    };
    let (state, action) = step(state, Event::Message(ClientMessage::ReconnectProof(proof)), store);
    assert_eq!(action, Action::ReconnectIntegrity { proof_data: proof.proof_data });
    (state, proof)
}

#[test]
fn logon_followed_by_reconnect() {
    let mut store = KeyImpl::new();
    let mut registry = RealmListImpl::new();
    registry.add_realm("Test Realm".to_string(), "localhost:8085".to_string());
    let (client, _) = log_on("A", &mut store, &registry);

    let (state, _) = up_to_reconnect_proof(&client, &mut store);
    let (state, action) = step(state, Event::ReconnectIntegrity([1; 20]), &mut store);
    assert_eq!(action, Action::Send(ServerMessage::ReconnectProof { result: LoginResult::Success }));
    let (state, action) = step(state, Event::Sent, &mut store);
    assert_eq!(action, Action::ReadRealmList);
    assert_eq!(state.challenge(), Some(&LogonChallenge { protocol_version: 2, ..vanilla_1_12("A".to_string()) }));
    let (state, action) = step(state, Event::Message(ClientMessage::RealmList), &mut store);
    assert_eq!(action, Action::GetRealmList);
    let (state, action) = step(state, Event::Realms(registry.get_realm_list()), &mut store);
    let Action::Send(ServerMessage::RealmList { realms }) = action else {
        panic!("{action:?}");
    };
    assert_eq!(realms.len(), 1);
    let (state, _) = step(state, Event::Sent, &mut store);
    let (_, action) = step(state, Event::Message(ClientMessage::XferCancel), &mut store);
    assert_eq!(action, Action::Finish(Ok(())));
    assert_eq!(store.session_key_for_user("A"), Some(*client.session_key()));
}

#[test]
fn a_reconnect_with_a_wrong_checksum_or_proof_is_refused() {
    let mut store = KeyImpl::new();
    let registry = RealmListImpl::new();
    let (client, _) = log_on("A", &mut store, &registry);
    let message = reconnect_1_12("A".to_string());

    let (state, _) = up_to_reconnect_proof(&client, &mut store);
    let (state, action) = step(state, Event::ReconnectIntegrity([2; 20]), &mut store);
    assert_eq!(
        action,
        Action::Send(ServerMessage::ReconnectProof { result: LoginResult::FailVersionInvalid })
    );
    let (_, action) = step(state, Event::Sent, &mut store);
    assert_eq!(
        action,
        Action::Finish(Err(InternalError::InvalidReconnectIntegrityCheckForUser {
            message: message.clone()
        }))
    );

    let (other, _) = log_on("B", &mut store, &registry);
    let (state, _) = up_to_reconnect_proof(&other, &mut store);
    let (state, action) = step(state, Event::ReconnectIntegrity([1; 20]), &mut store);
    assert_eq!(
        action,
        Action::Send(ServerMessage::ReconnectProof { result: LoginResult::FailIncorrectPassword })
    );
    let (_, action) = step(state, Event::Sent, &mut store);
    assert_eq!(
        action,
        Action::Finish(Err(InternalError::InvalidReconnectProofForUser { message }))
    );

    let (state, _) = AuthState::start();
    let (state, _) = step(
        state,
        Event::Message(ClientMessage::ReconnectChallenge(reconnect_1_12("A".to_string()))),
        &mut store,
    );
    let (state, _) = step(state, Event::Sent, &mut store);
    let (_, action) = step(state, Event::Message(ClientMessage::RealmList), &mut store);
    assert_eq!(
        action,
        Action::Finish(Err(InternalError::ExpectedOpcodeError {
            expected: ExpectedOpcode::ReconnectProof,
            err: ExpectedOpcodeError::Opcode(0x10)
        }))
    );
}

#[test]
fn a_finished_connection_waits_for_nothing() {
    let mut store = KeyImpl::new();
    let state = AuthState::Finished;
    assert!(!state.awaits(&Event::Sent));
    assert!(!state.awaits(&Event::IoFailed));
    let back = state.try_step(Event::Sent, &mut store, &OPTIONS);
    assert!(matches!(back, Err((AuthState::Finished, Event::Sent))));
    let (state, _) = AuthState::start();
    let back = state.try_step(Event::Realms(Vec::new()), &mut store, &OPTIONS);
    assert!(matches!(back, Err((AuthState::Initial, Event::Realms(_)))));
    let (state, _) = AuthState::start();
    let next = state.try_step(Event::ReadFailed(ExpectedOpcodeError::Io), &mut store, &OPTIONS);
    assert!(matches!(next, Ok((AuthState::Finished, Action::Finish(Err(_))))));
    let (state, _) = AuthState::start();
    assert!(state.awaits(&Event::ReadFailed(ExpectedOpcodeError::Io)));
    assert!(!state.awaits(&Event::Sent));
    assert!(!state.awaits(&Event::Patch(None)));
}
