//! The delivery of a patch to a client that the patch source has a file for.

use crate::auth::{finish, Action, AuthState};
use crate::error::{ExpectedOpcode, ExpectedOpcodeError, InternalError};
use crate::protocol::{ClientMessage, LogonChallenge, ServerMessage};
use crate::srp::{md5_compute, md5_digest};
use vstd::prelude::*;

verus! {

/// The number of bytes that one data message carries at most.
pub const TRANSFER_CHUNK: usize = 64;

/// Where the chunk that starts at `position` ends.
pub open spec fn chunk_end(data: Seq<u8>, position: int) -> int {
    if position + TRANSFER_CHUNK > data.len() {
        data.len() as int
    } else {
        position + TRANSFER_CHUNK
    }
}

/// The chunk of `data` that starts at `position`.
pub open spec fn chunk_at(data: Seq<u8>, position: int) -> Seq<u8> {
    data.subrange(position, chunk_end(data, position))
}

/// The chunks in which `data` is delivered from `position` on.
pub open spec fn chunks_from(data: Seq<u8>, position: int) -> Seq<Seq<u8>>
    decreases data.len() - position,
{
    if 0 <= position < data.len() {
        seq![chunk_at(data, position)] + chunks_from(data, chunk_end(data, position))
    } else {
        Seq::empty()
    }
}

/// The delivery from `position` on starts with the chunk at `position` and
/// goes on where that chunk ends.
pub proof fn lemma_chunks_unfold(data: Seq<u8>, position: int)
    requires
        0 <= position < data.len(),
    ensures
        chunks_from(data, position) == seq![chunk_at(data, position)] + chunks_from(
            data,
            chunk_end(data, position),
        ),
        position < chunk_end(data, position) <= data.len(),
{
}

/// The chunks delivered from `position` on, put together, are the bytes of
/// `data` from `position` to its end and no others; each chunk has 64 bytes
/// but the last, which has 1 to 64.
pub proof fn lemma_chunks_cover(data: Seq<u8>, position: int)
    requires
        0 <= position <= data.len(),
    ensures
        chunks_from(data, position).flatten() == data.subrange(position, data.len() as int),
        forall|i: int|
            0 <= i < chunks_from(data, position).len() ==> 1 <= (#[trigger] chunks_from(
                data,
                position,
            )[i]).len() <= TRANSFER_CHUNK,
        forall|i: int|
            0 <= i < chunks_from(data, position).len() - 1 ==> (#[trigger] chunks_from(
                data,
                position,
            )[i]).len() == TRANSFER_CHUNK,
    decreases data.len() - position,
{
    let all = chunks_from(data, position);
    if position < data.len() {
        let next = chunk_end(data, position);
        let rest = chunks_from(data, next);
        lemma_chunks_cover(data, next);
        assert(all.first() == chunk_at(data, position));
        assert(all.drop_first() =~= rest);
        assert(all.flatten() =~= data.subrange(position, data.len() as int));
        assert forall|i: int| 0 <= i < all.len() implies 1 <= (#[trigger] all[i]).len()
            <= TRANSFER_CHUNK by {
            if i > 0 {
                assert(all[i] == rest[i - 1]);
            }
        }
        assert forall|i: int| 0 <= i < all.len() - 1 implies (#[trigger] all[i]).len()
            == TRANSFER_CHUNK by {
            if i > 0 {
                assert(all[i] == rest[i - 1]);
            } else {
                assert(rest.len() > 0);
                assert(next < data.len());
            }
        }
    } else {
        assert(all.flatten() =~= data.subrange(position, data.len() as int));
    }
}

/// What goes on at `position`: while bytes are left, a look whether the
/// client has cancelled; after the last byte, the wait for the client to close.
pub open spec fn transfer_next(data: Vec<u8>, position: usize) -> (AuthState, Action) {
    if position < data@.len() {
        (AuthState::TransferPeek { data, position }, Action::Peek)
    } else {
        (AuthState::TransferDrain, Action::ReadAny)
    }
}

/// What the announcement of the file leads to.
pub open spec fn transfer_initiate_post(
    challenge: LogonChallenge,
    data: Vec<u8>,
    file_md5: [u8; 16],
    r: (AuthState, Action),
) -> bool {
    if data@.len() > u64::MAX {
        r == finish(
            Err(InternalError::ProvidedFileTooLarge { message: challenge, size: data@.len() as usize }),
        )
    } else {
        &&& r.0 == AuthState::TransferInitiateSent { challenge, data }
        &&& r.1 matches Action::Send(ServerMessage::XferInitiate { filename, file_size, file_md5: sum })
        &&& filename@ == "Patch"@
        &&& file_size == data@.len()
        &&& sum == file_md5
    }
}

/// Announces the file under the name "Patch", with its size and digest; a
/// file whose size does not fit 64 bits ends the connection.
pub fn transfer_initiate(challenge: LogonChallenge, data: Vec<u8>, file_md5: [u8; 16]) -> (r: (
    AuthState,
    Action,
))
    ensures
        transfer_initiate_post(challenge, data, file_md5, r),
{
    let size: usize = data.len();
    if size as u128 > u64::MAX as u128 {
        (
            AuthState::Finished,
            Action::Finish(Err(InternalError::ProvidedFileTooLarge { message: challenge, size })),
        )
    } else {
        let message = ServerMessage::XferInitiate {
            filename: "Patch".to_string(),
            file_size: size as u64,
            file_md5,
        };
        (AuthState::TransferInitiateSent { challenge, data }, Action::Send(message))
    }
}

/// The client has been told that a download follows: the file is announced
/// with its MD5 digest.
pub fn transfer(challenge: LogonChallenge, data: Vec<u8>) -> (r: (AuthState, Action))
    ensures
        r.0 == (AuthState::TransferInitiateSent { challenge, data }),
        r.1 matches Action::Send(ServerMessage::XferInitiate { filename, file_size, file_md5 })
            && filename@ == "Patch"@ && file_size == data@.len() && file_md5@ == md5_digest(data@),
{
    let file_md5 = md5_compute(data.as_slice());
    let size: usize = data.len();
    assert(size <= u64::MAX);
    transfer_initiate(challenge, data, file_md5)
}

/// Goes on at `position`.
pub fn transfer_continue(data: Vec<u8>, position: usize) -> (r: (AuthState, Action))
    ensures
        r == transfer_next(data, position),
{
    if position < data.len() {
        (AuthState::TransferPeek { data, position }, Action::Peek)
    } else {
        (AuthState::TransferDrain, Action::ReadAny)
    }
}

/// The client has answered the announcement: an accept starts the delivery
/// at the first byte, a resume at its offset, which must fit the machine's
/// sizes; any other message ends the connection.
pub fn transfer_accept(
    challenge: LogonChallenge,
    data: Vec<u8>,
    read: Result<ClientMessage, ExpectedOpcodeError>,
) -> (r: (AuthState, Action))
    ensures
        r == match read {
            Err(err) => finish(
                Err(
                    InternalError::ExpectedOpcodeError { expected: ExpectedOpcode::XferOrResume, err },
                ),
            ),
            Ok(ClientMessage::XferAccept) => transfer_next(data, 0),
            Ok(ClientMessage::XferResume { offset }) => if offset > usize::MAX {
                finish(Err(InternalError::TransferOffsetTooLarge { message: challenge, size: offset }))
            } else {
                transfer_next(data, offset as usize)
            },
            Ok(opcode) => finish(Err(InternalError::MessageInvalid { message: challenge, opcode })),
        },
{
    match read {
        Err(err) => (
            AuthState::Finished,
            Action::Finish(
                Err(
                    InternalError::ExpectedOpcodeError { expected: ExpectedOpcode::XferOrResume, err },
                ),
            ),
        ),
        Ok(ClientMessage::XferAccept) => transfer_continue(data, 0),
        Ok(ClientMessage::XferResume { offset }) => {
            if offset > usize::MAX as u64 {
                (
                    AuthState::Finished,
                    Action::Finish(
                        Err(InternalError::TransferOffsetTooLarge { message: challenge, size: offset }),
                    ),
                )
            } else {
                transfer_continue(data, offset as usize)
            }
        },
        Ok(opcode) => (
            AuthState::Finished,
            Action::Finish(Err(InternalError::MessageInvalid { message: challenge, opcode })),
        ),
    }
}

/// What a look at the socket leads to.
pub open spec fn transfer_peeked_post(
    data: Vec<u8>,
    position: usize,
    peeked: Option<usize>,
    r: (AuthState, Action),
) -> bool {
    match peeked {
        None => r == finish(Err(InternalError::Io)),
        Some(found) => if found != 0 {
            r == finish(Ok(()))
        } else if position < data@.len() {
            &&& r.0 == AuthState::TransferChunkSent {
                data,
                position: chunk_end(data@, position as int) as usize,
            }
            &&& r.1 matches Action::Send(ServerMessage::XferData { data: chunk })
            &&& chunk@ == chunk_at(data@, position as int)
        } else {
            r == (AuthState::TransferDrain, Action::ReadAny)
        },
    }
}

/// The look at the socket has ended, with the number of bytes it found or
/// `None` if it failed. Any byte means that the client has cancelled, which
/// ends the connection in good order; with none, the next chunk goes out.
pub fn transfer_peeked(data: Vec<u8>, position: usize, peeked: Option<usize>) -> (r: (
    AuthState,
    Action,
))
    ensures
        transfer_peeked_post(data, position, peeked, r),
{
    match peeked {
        None => (AuthState::Finished, Action::Finish(Err(InternalError::Io))),
        Some(found) => {
            if found != 0 {
                (AuthState::Finished, Action::Finish(Ok(())))
            } else if position < data.len() {
                let end: usize = if data.len() - position < TRANSFER_CHUNK {
                    data.len()
                } else {
                    position + TRANSFER_CHUNK
                };
                let mut chunk: Vec<u8> = Vec::new();
                let mut i: usize = position;
                while i < end
                    invariant
                        position <= i <= end <= data@.len(),
                        chunk@ == data@.subrange(position as int, i as int),
                    decreases end - i,
                {
                    chunk.push(data[i]);
                    assert(chunk@ =~= data@.subrange(position as int, i + 1));
                    i += 1;
                }
                (
                    AuthState::TransferChunkSent { data, position: end },
                    Action::Send(ServerMessage::XferData { data: chunk }),
                )
            } else {
                (AuthState::TransferDrain, Action::ReadAny)
            }
        },
    }
}

/// After the last chunk the server reads on and discards what it reads,
/// until the client closes the connection.
pub fn transfer_drain(read: Result<ClientMessage, ExpectedOpcodeError>) -> (r: (AuthState, Action))
    ensures
        r == match read {
            Ok(_) => (AuthState::TransferDrain, Action::ReadAny),
            Err(_) => finish(Ok(())),
        },
{
    match read {
        Ok(_) => (AuthState::TransferDrain, Action::ReadAny),
        Err(_) => (AuthState::Finished, Action::Finish(Ok(()))),
    }
}

} // verus!
