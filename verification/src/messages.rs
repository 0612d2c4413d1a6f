//! The messages that world servers and the broker exchange: one opcode byte,
//! then the fields of the message back to back.

use crate::wire::{
    lemma_read_string_stable, lemma_string_round_trip, read_bool, read_string, read_u8, spec_read_bool, spec_read_string,
    spec_read_string_taken, spec_read_u8, spec_write_bool, spec_write_string, write_bool, write_string, write_u8,
    ByteReader, MessageError, Parsed,
};
use vstd::bytes::*;
use vstd::prelude::*;
use vstd::utf8::encode_utf8;

verus! {

pub const SESSION_KEY_ANSWER_OPCODE: u8 = 1;

pub const REGISTER_REALM_REPLY_OPCODE: u8 = 5;

pub const REQUEST_SESSION_KEY_OPCODE: u8 = 0;

pub const REGISTER_REALM_OPCODE: u8 = 4;

/// What the broker sends to a world server.
#[derive(Debug, Clone, PartialEq, Eq)]
pub enum ClientOpcodes {
    SessionKeyAnswer { name: String, session_key: Option<[u8; 40]> },
    RegisterRealmReply { realm_id: Option<u8> },
}

/// Mathematical value of a [`ClientOpcodes`].
pub enum ClientOpcodesView {
    SessionKeyAnswer { name: Seq<char>, session_key: Option<Seq<u8>> },
    RegisterRealmReply { realm_id: Option<u8> },
}

impl View for ClientOpcodes {
    type V = ClientOpcodesView;

    open spec fn view(&self) -> ClientOpcodesView {
        match self {
            ClientOpcodes::SessionKeyAnswer { name, session_key } => {
                ClientOpcodesView::SessionKeyAnswer {
                    name: name@,
                    session_key: match session_key {
                        Some(key) => Some(key@),
                        None => None,
                    },
                }
            },
            ClientOpcodes::RegisterRealmReply { realm_id } => {
                ClientOpcodesView::RegisterRealmReply { realm_id: *realm_id }
            },
        }
    }
}

impl ClientOpcodesView {
    /// A session key, where there is one, has 40 bytes.
    pub open spec fn well_formed(self) -> bool {
        self matches ClientOpcodesView::SessionKeyAnswer { session_key: Some(key), .. }
            ==> key.len() == 40
    }

    /// The bytes of the message on the wire.
    pub open spec fn spec_write(self) -> Seq<u8> {
        match self {
            ClientOpcodesView::SessionKeyAnswer { name, session_key } => {
                seq![SESSION_KEY_ANSWER_OPCODE] + spec_write_string(name) + match session_key {
                    Some(key) => spec_write_bool(true) + key,
                    None => spec_write_bool(false),
                }
            },
            ClientOpcodesView::RegisterRealmReply { realm_id } => {
                seq![REGISTER_REALM_REPLY_OPCODE] + match realm_id {
                    Some(id) => spec_write_bool(true) + seq![id],
                    None => spec_write_bool(false),
                }
            },
        }
    }

    /// The number of bytes that reading a message takes off the front of
    /// `bytes`, whether it succeeds or not: every field up to the one that
    /// is not there whole, and the text of a string that is no UTF-8.
    pub open spec fn spec_taken(bytes: Seq<u8>) -> int {
        if bytes.len() < 1 {
            0
        } else if bytes[0] == SESSION_KEY_ANSWER_OPCODE {
            1 + spec_read_string_taken(bytes.skip(1)) + match spec_read_string(bytes.skip(1)) {
                Err(_) => 0int,
                Ok((_, n)) => match spec_read_bool(bytes.skip(1 + n)) {
                    Err(_) => 0int,
                    Ok((false, _)) => 1int,
                    Ok((true, _)) => if bytes.len() < 2 + n + 40 {
                        1int
                    } else {
                        41int
                    },
                },
            }
        } else if bytes[0] == REGISTER_REALM_REPLY_OPCODE {
            match spec_read_bool(bytes.skip(1)) {
                Err(_) => 1int,
                Ok((false, _)) => 2int,
                Ok((true, _)) => if bytes.len() < 3 {
                    2int
                } else {
                    3int
                },
            }
        } else {
            1
        }
    }

    /// The message at the front of `bytes` and its length, or why there is none.
    pub open spec fn spec_read(bytes: Seq<u8>) -> Parsed<ClientOpcodesView> {
        match spec_read_u8(bytes) {
            Err(e) => Err(e),
            Ok((opcode, _)) => {
                if opcode == SESSION_KEY_ANSWER_OPCODE {
                    match spec_read_string(bytes.skip(1)) {
                        Err(e) => Err(e),
                        Ok((name, n)) => match spec_read_bool(bytes.skip(1 + n)) {
                            Err(e) => Err(e),
                            Ok((false, _)) => Ok(
                                (
                                    ClientOpcodesView::SessionKeyAnswer { name, session_key: None },
                                    2 + n,
                                ),
                            ),
                            Ok((true, _)) => if bytes.len() < 2 + n + 40 {
                                Err(MessageError::Io)
                            } else {
                                Ok(
                                    (
                                        ClientOpcodesView::SessionKeyAnswer {
                                            name,
                                            session_key: Some(bytes.subrange(2 + n, 2 + n + 40)),
                                        },
                                        2 + n + 40,
                                    ),
                                )
                            },
                        },
                    }
                } else if opcode == REGISTER_REALM_REPLY_OPCODE {
                    match spec_read_bool(bytes.skip(1)) {
                        Err(e) => Err(e),
                        Ok((false, _)) => Ok(
                            (ClientOpcodesView::RegisterRealmReply { realm_id: None }, 2),
                        ),
                        Ok((true, _)) => match spec_read_u8(bytes.skip(2)) {
                            Err(e) => Err(e),
                            Ok((id, _)) => Ok(
                                (ClientOpcodesView::RegisterRealmReply { realm_id: Some(id) }, 3),
                            ),
                        },
                    }
                } else {
                    Err(MessageError::InvalidOpcode(opcode))
                }
            },
        }
    }
}

/// What reading a message from a cursor must give: the message on success,
/// the error otherwise, and either way the cursor behind the `taken` bytes
/// that the read took.
pub open spec fn read_outcome<M: View>(
    expected: Parsed<M::V>,
    taken: int,
    before: ByteReader,
    after: ByteReader,
    res: Result<M, MessageError>,
) -> bool {
    &&& match expected {
        Ok((value, n)) => res matches Ok(m) && m@ == value && n == taken,
        Err(e) => res matches Err(err) && err == e,
    }
    &&& after.remaining() == before.remaining().skip(taken)
    &&& after.consumed() == before.consumed() + taken
}

impl ClientOpcodes {
    /// Reads one message off the cursor. A read that fails leaves the cursor
    /// behind the fields that were there whole.
    pub fn read(r: &mut ByteReader) -> (res: Result<Self, MessageError>)
        ensures
            final(r).buffer() == old(r).buffer(),
            read_outcome(
                ClientOpcodesView::spec_read(old(r).remaining()),
                ClientOpcodesView::spec_taken(old(r).remaining()),
                *old(r),
                *final(r),
                res,
            ),
            res matches Ok(m) ==> m@.well_formed(),
    {
        let ghost all = r.remaining();
        let opcode = match read_u8(r) {
            Ok(b) => b,
            Err(e) => {
                assert(r.remaining() =~= all.skip(0));
                return Err(e);
            },
        };
        if opcode == SESSION_KEY_ANSWER_OPCODE {
            let ghost taken = spec_read_string_taken(all.skip(1));
            let name = match read_string(r) {
                Ok(s) => s,
                Err(e) => {
                    assert(r.remaining() =~= all.skip(1 + taken));
                    return Err(e);
                },
            };
            let ghost n = taken;
            assert(r.remaining() =~= all.skip(1 + n));
            let has_key = match read_bool(r) {
                Ok(b) => b,
                Err(e) => { return Err(e); },
            };
            assert(r.remaining() =~= all.skip(2 + n));
            let session_key = if has_key {
                let bytes = match r.read_exact(40) {
                    Ok(b) => b,
                    Err(e) => { return Err(e); },
                };
                let mut key = [0u8;40];
                let mut i: usize = 0;
                while i < 40
                    invariant
                        i <= 40,
                        bytes@.len() == 40,
                        forall|j: int| 0 <= j < i ==> key@[j] == bytes@[j],
                    decreases 40 - i,
                {
                    key[i] = bytes[i];
                    i += 1;
                }
                assert(key@ =~= all.subrange(2 + n, 2 + n + 40));
                assert(r.remaining() =~= all.skip(2 + n + 40));
                Some(key)
            } else {
                None
            };
            Ok(ClientOpcodes::SessionKeyAnswer { name, session_key })
        } else if opcode == REGISTER_REALM_REPLY_OPCODE {
            let success = match read_bool(r) {
                Ok(b) => b,
                Err(e) => { return Err(e); },
            };
            assert(r.remaining() =~= all.skip(2));
            let realm_id = if success {
                let id = match read_u8(r) {
                    Ok(b) => b,
                    Err(e) => { return Err(e); },
                };
                assert(r.remaining() =~= all.skip(3));
                Some(id)
            } else {
                None
            };
            Ok(ClientOpcodes::RegisterRealmReply { realm_id })
        } else {
            Err(MessageError::InvalidOpcode(opcode))
        }
    }

    /// Appends the message to `w`.
    pub fn write(&self, w: &mut Vec<u8>)
        ensures
            final(w)@ == old(w)@ + self@.spec_write(),
            self@.well_formed(),
    {
        match self {
            ClientOpcodes::SessionKeyAnswer { name, session_key } => {
                write_u8(w, SESSION_KEY_ANSWER_OPCODE);
                write_string(w, name.as_str());
                match session_key {
                    Some(key) => {
                        write_bool(w, true);
                        let ghost before = w@;
                        let mut i: usize = 0;
                        while i < 40
                            invariant
                                i <= 40,
                                key@.len() == 40,
                                w@ == before + key@.subrange(0, i as int),
                            decreases 40 - i,
                        {
                            write_u8(w, key[i]);
                            assert(w@ =~= before + key@.subrange(0, i + 1));
                            i += 1;
                        }
                        assert(key@.subrange(0, 40) =~= key@);
                        assert(final(w)@ =~= old(w)@ + self@.spec_write());
                    },
                    None => {
                        write_bool(w, false);
                        assert(final(w)@ =~= old(w)@ + self@.spec_write());
                    },
                }
            },
            ClientOpcodes::RegisterRealmReply { realm_id } => {
                write_u8(w, REGISTER_REALM_REPLY_OPCODE);
                match realm_id {
                    Some(id) => {
                        write_bool(w, true);
                        write_u8(w, *id);
                        assert(final(w)@ =~= old(w)@ + self@.spec_write());
                    },
                    None => {
                        write_bool(w, false);
                        assert(final(w)@ =~= old(w)@ + self@.spec_write());
                    },
                }
            },
        }
    }
}

/// A broker reply whose name fits one length byte is read back as it was
/// written, whatever follows it.
pub proof fn lemma_client_round_trip(message: ClientOpcodesView, rest: Seq<u8>)
    requires
        message.well_formed(),
        message matches ClientOpcodesView::SessionKeyAnswer { name, .. } ==> encode_utf8(
            name,
        ).len() <= 255,
    ensures
        ClientOpcodesView::spec_read(message.spec_write() + rest) == Ok::<
            (ClientOpcodesView, int),
            MessageError,
        >((message, message.spec_write().len() as int)),
{
    let all = message.spec_write() + rest;
    match message {
        ClientOpcodesView::SessionKeyAnswer { name, session_key } => {
            let tail = match session_key {
                Some(key) => spec_write_bool(true) + key,
                None => spec_write_bool(false),
            };
            let n = spec_write_string(name).len() as int;
            assert(all.skip(1) =~= spec_write_string(name) + (tail + rest));
            lemma_string_round_trip(name, tail + rest);
            assert(all.skip(1 + n) =~= tail + rest);
            match session_key {
                Some(key) => {
                    assert(all.subrange(2 + n, 2 + n + 40) =~= key);
                },
                None => {},
            }
        },
        ClientOpcodesView::RegisterRealmReply { realm_id } => {
            match realm_id {
                Some(id) => {
                    assert(all.skip(1) =~= spec_write_bool(true) + (seq![id] + rest));
                    assert(all.skip(2) =~= seq![id] + rest);
                },
                None => {
                    assert(all.skip(1) =~= spec_write_bool(false) + rest);
                },
            }
        },
    }
}


/// What a world server sends to the broker. `population` holds the IEEE-754
/// bit pattern of the single-precision value on the wire.
#[derive(Debug, Clone, PartialEq, Eq)]
pub enum ServerOpcodes {
    RequestSessionKey { name: String },
    RegisterRealm {
        name: String,
        address: String,
        population: u32,
        locked: bool,
        flags: u8,
        category: u8,
        realm_type: u8,
        version_major: u8,
        version_minor: u8,
        version_patch: u8,
        version_build: u16,
    },
}

/// Mathematical value of a [`ServerOpcodes`].
pub enum ServerOpcodesView {
    RequestSessionKey { name: Seq<char> },
    RegisterRealm {
        name: Seq<char>,
        address: Seq<char>,
        population: u32,
        locked: bool,
        flags: u8,
        category: u8,
        realm_type: u8,
        version_major: u8,
        version_minor: u8,
        version_patch: u8,
        version_build: u16,
    },
}

impl View for ServerOpcodes {
    type V = ServerOpcodesView;

    open spec fn view(&self) -> ServerOpcodesView {
        match self {
            ServerOpcodes::RequestSessionKey { name } => ServerOpcodesView::RequestSessionKey {
                name: name@,
            },
            ServerOpcodes::RegisterRealm {
                name,
                address,
                population,
                locked,
                flags,
                category,
                realm_type,
                version_major,
                version_minor,
                version_patch,
                version_build,
            } => ServerOpcodesView::RegisterRealm {
                name: name@,
                address: address@,
                population: *population,
                locked: *locked,
                flags: *flags,
                category: *category,
                realm_type: *realm_type,
                version_major: *version_major,
                version_minor: *version_minor,
                version_patch: *version_patch,
                version_build: *version_build,
            },
        }
    }
}

/// The number of bytes that follow the two strings of a realm registration.
pub const REGISTER_REALM_FIXED_LENGTH: usize = 13;

/// The thirteen bytes that close a realm registration.
pub open spec fn spec_write_fixed(
    population: u32,
    locked: bool,
    flags: u8,
    category: u8,
    realm_type: u8,
    version_major: u8,
    version_minor: u8,
    version_patch: u8,
    version_build: u16,
) -> Seq<u8> {
    spec_u32_to_le_bytes(population) + spec_write_bool(locked) + seq![
        flags,
        category,
        realm_type,
        version_major,
        version_minor,
        version_patch,
    ] + spec_u16_to_le_bytes(version_build)
}

impl ServerOpcodesView {
    /// The bytes of the message on the wire; numbers are little-endian.
    pub open spec fn spec_write(self) -> Seq<u8> {
        match self {
            ServerOpcodesView::RequestSessionKey { name } => seq![REQUEST_SESSION_KEY_OPCODE]
                + spec_write_string(name),
            ServerOpcodesView::RegisterRealm {
                name,
                address,
                population,
                locked,
                flags,
                category,
                realm_type,
                version_major,
                version_minor,
                version_patch,
                version_build,
            } => seq![REGISTER_REALM_OPCODE] + (spec_write_string(name) + (spec_write_string(
                address,
            ) + spec_write_fixed(
                population,
                locked,
                flags,
                category,
                realm_type,
                version_major,
                version_minor,
                version_patch,
                version_build,
            ))),
        }
    }

    /// The number of bytes that reading a message takes off the front of
    /// `bytes`, whether it succeeds or not: every field up to the one that
    /// is not there whole, and the text of a string that is no UTF-8.
    pub open spec fn spec_taken(bytes: Seq<u8>) -> int {
        if bytes.len() < 1 {
            0
        } else if bytes[0] == REQUEST_SESSION_KEY_OPCODE {
            1 + spec_read_string_taken(bytes.skip(1))
        } else if bytes[0] == REGISTER_REALM_OPCODE {
            1 + spec_read_string_taken(bytes.skip(1)) + match spec_read_string(bytes.skip(1)) {
                Err(_) => 0int,
                Ok((_, n)) => spec_read_string_taken(bytes.skip(1 + n)) + match spec_read_string(
                    bytes.skip(1 + n),
                ) {
                    Err(_) => 0int,
                    Ok((_, m)) => if bytes.skip(1 + n + m).len() < REGISTER_REALM_FIXED_LENGTH {
                        0int
                    } else {
                        REGISTER_REALM_FIXED_LENGTH as int
                    },
                },
            }
        } else {
            1
        }
    }

    /// The message at the front of `bytes` and its length, or why there is none.
    pub open spec fn spec_read(bytes: Seq<u8>) -> Parsed<ServerOpcodesView> {
        match spec_read_u8(bytes) {
            Err(e) => Err(e),
            Ok((opcode, _)) => {
                if opcode == REQUEST_SESSION_KEY_OPCODE {
                    match spec_read_string(bytes.skip(1)) {
                        Err(e) => Err(e),
                        Ok((name, n)) => Ok(
                            (ServerOpcodesView::RequestSessionKey { name }, 1 + n),
                        ),
                    }
                } else if opcode == REGISTER_REALM_OPCODE {
                    match spec_read_string(bytes.skip(1)) {
                        Err(e) => Err(e),
                        Ok((name, n)) => match spec_read_string(bytes.skip(1 + n)) {
                            Err(e) => Err(e),
                            Ok((address, m)) => {
                                let tail = bytes.skip(1 + n + m);
                                if tail.len() < REGISTER_REALM_FIXED_LENGTH {
                                    Err(MessageError::Io)
                                } else {
                                    Ok(
                                        (
                                            ServerOpcodesView::RegisterRealm {
                                                name,
                                                address,
                                                population: spec_u32_from_le_bytes(
                                                    tail.subrange(0, 4),
                                                ),
                                                locked: tail[4] == 1,
                                                flags: tail[5],
                                                category: tail[6],
                                                realm_type: tail[7],
                                                version_major: tail[8],
                                                version_minor: tail[9],
                                                version_patch: tail[10],
                                                version_build: spec_u16_from_le_bytes(
                                                    tail.subrange(11, 13),
                                                ),
                                            },
                                            1 + n + m + REGISTER_REALM_FIXED_LENGTH,
                                        ),
                                    )
                                }
                            },
                        },
                    }
                } else {
                    Err(MessageError::InvalidOpcode(opcode))
                }
            },
        }
    }
}

impl ServerOpcodes {
    /// Reads one message off the cursor. A read that fails leaves the cursor
    /// behind the fields that were there whole.
    pub fn read(r: &mut ByteReader) -> (res: Result<Self, MessageError>)
        ensures
            final(r).buffer() == old(r).buffer(),
            read_outcome(
                ServerOpcodesView::spec_read(old(r).remaining()),
                ServerOpcodesView::spec_taken(old(r).remaining()),
                *old(r),
                *final(r),
                res,
            ),
    {
        let ghost all = r.remaining();
        let opcode = match read_u8(r) {
            Ok(b) => b,
            Err(e) => {
                assert(r.remaining() =~= all.skip(0));
                return Err(e);
            },
        };
        if opcode == REQUEST_SESSION_KEY_OPCODE {
            let ghost taken = spec_read_string_taken(all.skip(1));
            let name = match read_string(r) {
                Ok(s) => s,
                Err(e) => {
                    assert(r.remaining() =~= all.skip(1 + taken));
                    return Err(e);
                },
            };
            assert(r.remaining() =~= all.skip(1 + taken));
            Ok(ServerOpcodes::RequestSessionKey { name })
        } else if opcode == REGISTER_REALM_OPCODE {
            let ghost n = spec_read_string_taken(all.skip(1));
            let name = match read_string(r) {
                Ok(s) => s,
                Err(e) => {
                    assert(r.remaining() =~= all.skip(1 + n));
                    return Err(e);
                },
            };
            assert(r.remaining() =~= all.skip(1 + n));
            let ghost m = spec_read_string_taken(all.skip(1 + n));
            let address = match read_string(r) {
                Ok(s) => s,
                Err(e) => {
                    assert(r.remaining() =~= all.skip(1 + n + m));
                    return Err(e);
                },
            };
            assert(r.remaining() =~= all.skip(1 + n + m));
            let tail = match r.read_exact(REGISTER_REALM_FIXED_LENGTH) {
                Ok(b) => b,
                Err(e) => {
                    assert(r.remaining() =~= all.skip(1 + n + m + 0));
                    return Err(e);
                },
            };
            assert(r.remaining() =~= all.skip(1 + n + m + 13));
            let ghost spec_tail = all.skip(1 + n + m);
            assert(tail@ =~= spec_tail.subrange(0, 13));
            let population = u32_from_le_bytes(vstd::slice::slice_subrange(tail.as_slice(), 0, 4));
            let version_build = u16_from_le_bytes(
                vstd::slice::slice_subrange(tail.as_slice(), 11, 13),
            );
            assert(tail@.subrange(0, 4) =~= spec_tail.subrange(0, 4));
            assert(tail@.subrange(11, 13) =~= spec_tail.subrange(11, 13));
            Ok(
                ServerOpcodes::RegisterRealm {
                    name,
                    address,
                    population,
                    locked: tail[4] == 1,
                    flags: tail[5],
                    category: tail[6],
                    realm_type: tail[7],
                    version_major: tail[8],
                    version_minor: tail[9],
                    version_patch: tail[10],
                    version_build,
                },
            )
        } else {
            Err(MessageError::InvalidOpcode(opcode))
        }
    }

    /// Appends the message to `w`.
    pub fn write(&self, w: &mut Vec<u8>)
        ensures
            final(w)@ == old(w)@ + self@.spec_write(),
    {
        match self {
            ServerOpcodes::RequestSessionKey { name } => {
                write_u8(w, REQUEST_SESSION_KEY_OPCODE);
                write_string(w, name.as_str());
                assert(final(w)@ =~= old(w)@ + self@.spec_write());
            },
            ServerOpcodes::RegisterRealm {
                name,
                address,
                population,
                locked,
                flags,
                category,
                realm_type,
                version_major,
                version_minor,
                version_patch,
                version_build,
            } => {
                write_u8(w, REGISTER_REALM_OPCODE);
                write_string(w, name.as_str());
                write_string(w, address.as_str());
                let mut number = u32_to_le_bytes(*population);
                w.append(&mut number);
                write_bool(w, *locked);
                write_u8(w, *flags);
                write_u8(w, *category);
                write_u8(w, *realm_type);
                write_u8(w, *version_major);
                write_u8(w, *version_minor);
                write_u8(w, *version_patch);
                let mut build = u16_to_le_bytes(*version_build);
                w.append(&mut build);
                assert(final(w)@ =~= old(w)@ + self@.spec_write());
            },
        }
    }
}

/// A request whose strings each fit one length byte is read back as it was
/// written, whatever follows it.
pub proof fn lemma_server_round_trip(message: ServerOpcodesView, rest: Seq<u8>)
    requires
        message matches ServerOpcodesView::RequestSessionKey { name } ==> encode_utf8(name).len()
            <= 255,
        message matches ServerOpcodesView::RegisterRealm { name, address, .. } ==> encode_utf8(
            name,
        ).len() <= 255 && encode_utf8(address).len() <= 255,
    ensures
        ServerOpcodesView::spec_read(message.spec_write() + rest) == Ok::<
            (ServerOpcodesView, int),
            MessageError,
        >((message, message.spec_write().len() as int)),
{
    match message {
        ServerOpcodesView::RequestSessionKey { name } => {
            let all = message.spec_write() + rest;
            assert(all.skip(1) =~= spec_write_string(name) + rest);
            lemma_string_round_trip(name, rest);
        },
        ServerOpcodesView::RegisterRealm { .. } => {
            lemma_register_realm_round_trip(message, rest);
        },
    }
}

/// A realm registration whose strings each fit one length byte is read back
/// as it was written, whatever follows it.
proof fn lemma_register_realm_round_trip(message: ServerOpcodesView, rest: Seq<u8>)
    requires
        message matches ServerOpcodesView::RegisterRealm { name, address, .. } && encode_utf8(
            name,
        ).len() <= 255 && encode_utf8(address).len() <= 255,
    ensures
        ServerOpcodesView::spec_read(message.spec_write() + rest) == Ok::<
            (ServerOpcodesView, int),
            MessageError,
        >((message, message.spec_write().len() as int)),
{
    let all = message.spec_write() + rest;
    if let ServerOpcodesView::RegisterRealm {
        name,
        address,
        population,
        locked,
        flags,
        category,
        realm_type,
        version_major,
        version_minor,
        version_patch,
        version_build,
    } = message {
        let fixed = spec_write_fixed(
            population,
            locked,
            flags,
            category,
            realm_type,
            version_major,
            version_minor,
            version_patch,
            version_build,
        );
        let n = spec_write_string(name).len() as int;
        let m = spec_write_string(address).len() as int;
        let shaped = seq![REGISTER_REALM_OPCODE] + (spec_write_string(name) + (spec_write_string(
            address,
        ) + (fixed + rest)));
        assert(all == shaped) by {
            assert(all =~= shaped);
        }
        lemma_two_strings(REGISTER_REALM_OPCODE, name, address, fixed + rest);
        lemma_fixed_fields(
            population,
            locked,
            flags,
            category,
            realm_type,
            version_major,
            version_minor,
            version_patch,
            version_build,
            rest,
        );
        let tail = all.skip(1 + n + m);
        assert(tail == fixed + rest);
        assert(tail.len() >= REGISTER_REALM_FIXED_LENGTH);
        assert(message.spec_write().len() == 1 + n + m + 13) by {
            assert(message.spec_write() =~= seq![REGISTER_REALM_OPCODE] + (spec_write_string(name)
                + (spec_write_string(address) + fixed)));
        }
    }
}

/// An opcode and two strings in front of `rest` are read back in turn, and
/// `rest` is what is left.
proof fn lemma_two_strings(opcode: u8, first: Seq<char>, second: Seq<char>, rest: Seq<u8>)
    requires
        encode_utf8(first).len() <= 255,
        encode_utf8(second).len() <= 255,
    ensures
        ({
            let all = seq![opcode] + (spec_write_string(first) + (spec_write_string(second)
                + rest));
            let n = spec_write_string(first).len() as int;
            let m = spec_write_string(second).len() as int;
            &&& spec_read_u8(all) == Ok::<(u8, int), MessageError>((opcode, 1))
            &&& spec_read_string(all.skip(1)) == Ok::<(Seq<char>, int), MessageError>((first, n))
            &&& spec_read_string(all.skip(1 + n)) == Ok::<(Seq<char>, int), MessageError>(
                (second, m),
            )
            &&& all.skip(1 + n + m) == rest
            &&& all.len() == 1 + n + m + rest.len()
        }),
{
    let all = seq![opcode] + (spec_write_string(first) + (spec_write_string(second) + rest));
    let n = spec_write_string(first).len() as int;
    let m = spec_write_string(second).len() as int;
    assert(all.skip(1) =~= spec_write_string(first) + (spec_write_string(second) + rest));
    lemma_string_round_trip(first, spec_write_string(second) + rest);
    assert(all.skip(1 + n) =~= spec_write_string(second) + rest);
    lemma_string_round_trip(second, rest);
    assert(all.skip(1 + n + m) =~= rest);
}

/// The fixed fields of a realm registration are read back as they were written.
proof fn lemma_fixed_fields(
    population: u32,
    locked: bool,
    flags: u8,
    category: u8,
    realm_type: u8,
    version_major: u8,
    version_minor: u8,
    version_patch: u8,
    version_build: u16,
    rest: Seq<u8>,
)
    ensures
        ({
            let fixed = spec_write_fixed(
                population,
                locked,
                flags,
                category,
                realm_type,
                version_major,
                version_minor,
                version_patch,
                version_build,
            );
            let tail = fixed + rest;
            &&& fixed.len() == 13
            &&& spec_u32_from_le_bytes(tail.subrange(0, 4)) == population
            &&& (tail[4] == 1) == locked
            &&& tail[5] == flags
            &&& tail[6] == category
            &&& tail[7] == realm_type
            &&& tail[8] == version_major
            &&& tail[9] == version_minor
            &&& tail[10] == version_patch
            &&& spec_u16_from_le_bytes(tail.subrange(11, 13)) == version_build
        }),
{
    lemma_auto_spec_u32_to_from_le_bytes();
    lemma_auto_spec_u16_to_from_le_bytes();
    let number = spec_u32_to_le_bytes(population);
    let build = spec_u16_to_le_bytes(version_build);
    let tail = spec_write_fixed(
        population,
        locked,
        flags,
        category,
        realm_type,
        version_major,
        version_minor,
        version_patch,
        version_build,
    ) + rest;
    assert(number.len() == 4);
    assert(build.len() == 2);
    assert(tail.subrange(0, 4) =~= number);
    assert(tail.subrange(11, 13) =~= build);
}


/// A reply that has been read, or refused for its opcode or its text, stays
/// so when more bytes arrive: a reader may take the input byte by byte and
/// stop at the first verdict that is not `Io`.
pub proof fn lemma_client_read_stable(bytes: Seq<u8>, more: Seq<u8>)
    requires
        ClientOpcodesView::spec_read(bytes) != Err::<(ClientOpcodesView, int), MessageError>(
            MessageError::Io,
        ),
    ensures
        ClientOpcodesView::spec_read(bytes + more) == ClientOpcodesView::spec_read(bytes),
{
    let all = bytes + more;
    assert(all[0] == bytes[0]);
    assert(all.skip(1) =~= bytes.skip(1) + more);
    if bytes[0] == SESSION_KEY_ANSWER_OPCODE {
        lemma_read_string_stable(bytes.skip(1), more);
        if let Ok((_, n)) = spec_read_string(bytes.skip(1)) {
            assert(all.skip(1 + n) =~= bytes.skip(1 + n) + more);
            assert(all.skip(1 + n)[0] == bytes.skip(1 + n)[0]);
            if bytes.skip(1 + n)[0] == 1 {
                assert(all.subrange(2 + n, 2 + n + 40) =~= bytes.subrange(2 + n, 2 + n + 40));
            }
        }
    } else if bytes[0] == REGISTER_REALM_REPLY_OPCODE {
        assert(all.skip(1)[0] == bytes.skip(1)[0]);
        assert(all.skip(2) =~= bytes.skip(2) + more);
        if bytes.skip(1)[0] == 1 {
            assert(all.skip(2)[0] == bytes.skip(2)[0]);
        }
    }
}

/// A request that has been read, or refused for its opcode or its text,
/// stays so when more bytes arrive: a reader may take the input byte by byte
/// and stop at the first verdict that is not `Io`.
pub proof fn lemma_server_read_stable(bytes: Seq<u8>, more: Seq<u8>)
    requires
        ServerOpcodesView::spec_read(bytes) != Err::<(ServerOpcodesView, int), MessageError>(
            MessageError::Io,
        ),
    ensures
        ServerOpcodesView::spec_read(bytes + more) == ServerOpcodesView::spec_read(bytes),
{
    let all = bytes + more;
    assert(all[0] == bytes[0]);
    assert(all.skip(1) =~= bytes.skip(1) + more);
    if bytes[0] == REQUEST_SESSION_KEY_OPCODE {
        lemma_read_string_stable(bytes.skip(1), more);
    } else if bytes[0] == REGISTER_REALM_OPCODE {
        lemma_read_string_stable(bytes.skip(1), more);
        if let Ok((_, n)) = spec_read_string(bytes.skip(1)) {
            assert(all.skip(1 + n) =~= bytes.skip(1 + n) + more);
            lemma_read_string_stable(bytes.skip(1 + n), more);
            if let Ok((_, m)) = spec_read_string(bytes.skip(1 + n)) {
                let tail = bytes.skip(1 + n + m);
                assert(all.skip(1 + n + m) =~= tail + more);
                assert((tail + more).subrange(0, 4) =~= tail.subrange(0, 4));
                assert((tail + more).subrange(11, 13) =~= tail.subrange(11, 13));
            }
        }
    }
}

} // verus!
