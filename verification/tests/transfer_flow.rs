use warthog::auth::{Action, AuthState, Event};
use warthog::error::{ExpectedOpcode, ExpectedOpcodeError, InternalError};
use warthog::keys::KeyImpl;
use warthog::protocol::{ClientMessage, LogonChallenge, Options, ServerMessage, Version};
use warthog::transfer::{transfer_initiate, TRANSFER_CHUNK};

const OPTIONS: Options = Options { randomize_pin_grid: false, max_concurrent_users: 10 };

fn challenge() -> LogonChallenge {
    LogonChallenge {
        protocol_version: 3,
        version: Version { major: 1, minor: 12, patch: 1, build: 5875 },
        platform: 0x0078_3836,
        os: 0x0057_696e,
        locale: 0x656e_4742,
        utc_timezone_offset: 60,
        client_ip_address: [127, 0, 0, 1],
        account_name: "A".to_string(),
    }
}

fn step(state: AuthState, event: Event) -> (AuthState, Action) {
    assert!(state.awaits(&event), "{state:?} does not wait for {event:?}");
    let mut store = KeyImpl::new();
    let next = state.step(event, &mut store, &OPTIONS);
    assert!(store.get_key_for_user("A").is_none());
    next
}

fn blob(len: usize) -> Vec<u8> {
    (0..len).map(|i| (i * 7 % 251) as u8).collect()
}

/// Runs a transfer of `data` up to the announcement and answers it with `answer`.
fn announced(data: &[u8], answer: Event) -> (AuthState, Action) {
    let (state, _) = AuthState::start();
    let (state, action) = step(state, Event::Message(ClientMessage::LogonChallenge(challenge())));
    assert_eq!(action, Action::GetPatch);
    let (state, action) = step(state, Event::Patch(Some(data.to_vec())));
    assert_eq!(action, Action::Send(ServerMessage::LogonChallengeLoginDownloadFile));
    let (state, action) = step(state, Event::Sent);
    assert_eq!(
        action,
        Action::Send(ServerMessage::XferInitiate {
            filename: "Patch".to_string(),
            file_size: data.len() as u64,
            file_md5: md5::compute(data).0,
        })
    );
    let (state, action) = step(state, Event::Sent);
    assert_eq!(action, Action::ReadAny);
    step(state, answer)
}

/// Delivers until the server waits for the client to close, and gives the chunks sent.
fn deliver(mut state: AuthState, mut action: Action) -> Vec<Vec<u8>> {
    let mut chunks = Vec::new();
    loop {
        match action {
            Action::Peek => {
                let (next, send) = step(state, Event::Peeked(0));
                let Action::Send(ServerMessage::XferData { data }) = send else {
                    panic!("{send:?}");
                };
                chunks.push(data);
                (state, action) = step(next, Event::Sent);
            }
            Action::ReadAny => break,
            other => panic!("{other:?}"),
        }
    }
    let (state, action) = step(state, Event::Message(ClientMessage::XferCancel));
    assert_eq!(action, Action::ReadAny);
    let (state, action) = step(state, Event::ReadFailed(ExpectedOpcodeError::Io));
    assert_eq!(action, Action::Finish(Ok(())));
    assert!(matches!(state, AuthState::Finished));
    chunks
}

#[test]
fn the_digest_of_a_known_text() {
    let (_, action) = transfer_initiate(challenge(), b"abc".to_vec(), md5::compute(b"abc").0);
    let Action::Send(ServerMessage::XferInitiate { filename, file_size, file_md5 }) = action else {
        panic!();
    };
    assert_eq!(filename, "Patch");
    assert_eq!(file_size, 3);
    assert_eq!(
        file_md5,
        [0x90, 0x01, 0x50, 0x98, 0x3c, 0xd2, 0x4f, 0xb0, 0xd6, 0x96, 0x3f, 0x7d, 0x28, 0xe1, 0x7f, 0x72]
    );
    let (state, _) = AuthState::start();
    let (state, _) = step(state, Event::Message(ClientMessage::LogonChallenge(challenge())));
    let (state, _) = step(state, Event::Patch(Some(b"abc".to_vec())));
    let (_, action) = step(state, Event::Sent);
    let Action::Send(ServerMessage::XferInitiate { file_md5, .. }) = action else {
        panic!();
    };
    assert_eq!(
        file_md5,
        [0x90, 0x01, 0x50, 0x98, 0x3c, 0xd2, 0x4f, 0xb0, 0xd6, 0x96, 0x3f, 0x7d, 0x28, 0xe1, 0x7f, 0x72]
    );
}

#[test]
fn an_accepted_transfer_delivers_the_whole_file_in_chunks_of_64() {
    for len in [0usize, 1, 63, 64, 65, 128, 200, 1000] {
        let data = blob(len);
        let (state, action) = announced(&data, Event::Message(ClientMessage::XferAccept));
        let chunks = deliver(state, action);
        assert_eq!(chunks.len(), (len + 63) / 64);
        for (i, chunk) in chunks.iter().enumerate() {
            if i + 1 < chunks.len() {
                assert_eq!(chunk.len(), TRANSFER_CHUNK);
            } else {
                assert!(1 <= chunk.len() && chunk.len() <= 64);
            }
        }
        assert_eq!(chunks.concat(), data);
    }
}

#[test]
fn a_resumed_transfer_delivers_from_its_offset_only() {
    let data = blob(200);
    for offset in [0u64, 1, 64, 100, 199] {
        let (state, action) = announced(&data, Event::Message(ClientMessage::XferResume { offset }));
        let chunks = deliver(state, action);
        assert_eq!(chunks.concat(), data[offset as usize..]);
        assert_eq!(chunks[0].len(), (200 - offset as usize).min(64));
    }
    for offset in [200u64, 201, 1 << 40] {
        let (state, action) = announced(&data, Event::Message(ClientMessage::XferResume { offset }));
        assert!(deliver(state, action).is_empty());
    }
}

#[test]
fn a_byte_from_the_client_cancels_the_transfer() {
    let data = blob(200);
    let (state, action) = announced(&data, Event::Message(ClientMessage::XferAccept));
    assert_eq!(action, Action::Peek);
    let (state, action) = step(state, Event::Peeked(0));
    assert_eq!(action, Action::Send(ServerMessage::XferData { data: data[..64].to_vec() }));
    let (state, action) = step(state, Event::Sent);
    assert_eq!(action, Action::Peek);
    let (state, action) = step(state, Event::Peeked(1));
    assert_eq!(action, Action::Finish(Ok(())));
    assert!(matches!(state, AuthState::Finished));
}

#[test]
fn a_failed_peek_or_write_ends_the_transfer_with_io() {
    let data = blob(200);
    let (state, _) = announced(&data, Event::Message(ClientMessage::XferAccept));
    let (_, action) = step(state, Event::IoFailed);
    assert_eq!(action, Action::Finish(Err(InternalError::Io)));

    let (state, _) = announced(&data, Event::Message(ClientMessage::XferAccept));
    let (state, _) = step(state, Event::Peeked(0));
    let (_, action) = step(state, Event::IoFailed);
    assert_eq!(action, Action::Finish(Err(InternalError::Io)));
}

#[test]
fn the_announcement_must_be_accepted_or_resumed() {
    let data = blob(10);
    let (state, action) = announced(&data, Event::Message(ClientMessage::RealmList));
    assert_eq!(
        action,
        Action::Finish(Err(InternalError::MessageInvalid {
            message: challenge(),
            opcode: ClientMessage::RealmList
        }))
    );
    assert!(matches!(state, AuthState::Finished));
    let (_, action) = announced(&data, Event::ReadFailed(ExpectedOpcodeError::Opcode(0x77)));
    assert_eq!(
        action,
        Action::Finish(Err(InternalError::ExpectedOpcodeError {
            expected: ExpectedOpcode::XferOrResume,
            err: ExpectedOpcodeError::Opcode(0x77)
        }))
    );
}
