//! Primitive fields of the broker wire format: bytes, booleans and strings
//! that carry their length in one byte.

use vstd::prelude::*;
use vstd::utf8::*;

verus! {

/// Why a broker message could not be read.
#[derive(Clone, Copy, Debug, PartialEq, Eq, Structural)]
pub enum MessageError {
    /// The input ended before the message did.
    Io,
    /// A string field is not UTF-8.
    Utf8,
    /// The first byte names no message.
    InvalidOpcode(u8),
}

/// What reading a field off the front of `bytes` gives: the value and the
/// number of bytes it took.
pub type Parsed<T> = Result<(T, int), MessageError>;

pub open spec fn spec_read_u8(bytes: Seq<u8>) -> Parsed<u8> {
    if bytes.len() < 1 {
        Err(MessageError::Io)
    } else {
        Ok((bytes[0], 1))
    }
}

/// A boolean is one byte; only the byte 1 reads as `true`.
pub open spec fn spec_read_bool(bytes: Seq<u8>) -> Parsed<bool> {
    match spec_read_u8(bytes) {
        Ok((b, n)) => Ok((b == 1, n)),
        Err(e) => Err(e),
    }
}

/// A string is one length byte and then that many bytes of UTF-8.
pub open spec fn spec_read_string(bytes: Seq<u8>) -> Parsed<Seq<char>> {
    if bytes.len() < 1 || bytes.len() < 1 + bytes[0] {
        Err(MessageError::Io)
    } else if !valid_utf8(bytes.subrange(1, 1 + bytes[0])) {
        Err(MessageError::Utf8)
    } else {
        Ok((decode_utf8(bytes.subrange(1, 1 + bytes[0])), 1 + bytes[0]))
    }
}

/// The number of bytes that reading a byte or a boolean takes off the front
/// of `bytes`: one, if there is one.
pub open spec fn spec_read_u8_taken(bytes: Seq<u8>) -> int {
    if bytes.len() < 1 {
        0
    } else {
        1
    }
}

/// The number of bytes that reading a string takes off the front of `bytes`,
/// whether it succeeds or not: the length byte, if it is there, and the text,
/// if it is there whole.
pub open spec fn spec_read_string_taken(bytes: Seq<u8>) -> int {
    if bytes.len() < 1 {
        0
    } else if bytes.len() < 1 + bytes[0] {
        1
    } else {
        1 + bytes[0]
    }
}

pub open spec fn spec_write_bool(value: bool) -> Seq<u8> {
    seq![if value { 1u8 } else { 0u8 }]
}

/// The length byte holds the low eight bits of the length in bytes; the
/// encoded text follows whole.
pub open spec fn spec_write_string(value: Seq<char>) -> Seq<u8> {
    seq![(encode_utf8(value).len() % 256) as u8] + encode_utf8(value)
}

/// A cursor over a buffer of received bytes.
pub struct ByteReader<'a> {
    data: &'a [u8],
    pos: usize,
}

impl<'a> ByteReader<'a> {
    #[verifier::type_invariant]
    spec fn in_bounds(&self) -> bool {
        self.pos <= self.data@.len()
    }

    /// The bytes that have not been read yet.
    pub closed spec fn remaining(&self) -> Seq<u8> {
        self.data@.subrange(self.pos as int, self.data@.len() as int)
    }

    /// The number of bytes read so far.
    pub closed spec fn consumed(&self) -> int {
        self.pos as int
    }

    /// The whole buffer, read or not.
    pub closed spec fn buffer(&self) -> Seq<u8> {
        self.data@
    }

    /// A cursor at the start of `data`.
    pub fn new(data: &'a [u8]) -> (r: Self)
        ensures
            r.remaining() == data@,
            r.buffer() == data@,
            r.consumed() == 0,
    {
        let r = ByteReader { data, pos: 0 };
        assert(r.remaining() =~= data@);
        r
    }

    /// The number of bytes read so far.
    pub fn position(&self) -> (n: usize)
        ensures
            n == self.consumed(),
            0 <= self.consumed() <= self.buffer().len(),
            self.remaining() == self.buffer().subrange(self.consumed(), self.buffer().len() as int),
    {
        proof {
            use_type_invariant(self);
        }
        self.pos
    }

    /// Takes the next `n` bytes, or fails with `Io` and takes nothing when
    /// fewer are left.
    pub fn read_exact(&mut self, n: usize) -> (r: Result<Vec<u8>, MessageError>)
        ensures
            final(self).buffer() == old(self).buffer(),
            match r {
                Ok(bytes) => {
                    &&& n <= old(self).remaining().len()
                    &&& bytes@ == old(self).remaining().subrange(0, n as int)
                    &&& final(self).remaining() == old(self).remaining().subrange(
                        n as int,
                        old(self).remaining().len() as int,
                    )
                    &&& final(self).consumed() == old(self).consumed() + n
                },
                Err(e) => {
                    &&& e == MessageError::Io
                    &&& n > old(self).remaining().len()
                    &&& final(self).remaining() == old(self).remaining()
                    &&& final(self).consumed() == old(self).consumed()
                },
            },
    {
        proof {
            use_type_invariant(&*self);
        }
        if n > self.data.len() - self.pos {
            return Err(MessageError::Io);
        }
        let mut out: Vec<u8> = Vec::new();
        let start = self.pos;
        let total = self.data.len();
        let mut i: usize = 0;
        while i < n
            invariant
                i <= n,
                total == self.data@.len(),
                start + n <= total,
                out@ == self.data@.subrange(start as int, start + i),
            decreases n - i,
        {
            out.push(self.data[start + i]);
            assert(out@ =~= self.data@.subrange(start as int, start + i + 1));
            i += 1;
        }
        self.pos = start + n;
        assert(out@ =~= old(self).remaining().subrange(0, n as int));
        assert(self.remaining() =~= old(self).remaining().subrange(
            n as int,
            old(self).remaining().len() as int,
        ));
        Ok(out)
    }
}

/// Reads one byte.
pub fn read_u8(r: &mut ByteReader) -> (res: Result<u8, MessageError>)
    ensures
        final(r).buffer() == old(r).buffer(),
        match spec_read_u8(old(r).remaining()) {
            Ok((value, n)) => res == Ok::<u8, MessageError>(value) && final(r).remaining() == old(
                r,
            ).remaining().skip(n) && final(r).consumed() == old(r).consumed() + n,
            Err(e) => res == Err::<u8, MessageError>(e) && final(r).remaining() == old(
                r,
            ).remaining() && final(r).consumed() == old(r).consumed(),
        },
{
    match r.read_exact(1) {
        Ok(bytes) => {
            assert(final(r).remaining() =~= old(r).remaining().skip(1));
            Ok(bytes[0])
        },
        Err(e) => Err(e),
    }
}

/// Reads a boolean: one byte, `true` only if it is 1.
pub fn read_bool(r: &mut ByteReader) -> (res: Result<bool, MessageError>)
    ensures
        final(r).buffer() == old(r).buffer(),
        match spec_read_bool(old(r).remaining()) {
            Ok((value, n)) => res == Ok::<bool, MessageError>(value) && final(r).remaining()
                == old(r).remaining().skip(n) && final(r).consumed() == old(r).consumed() + n,
            Err(e) => res == Err::<bool, MessageError>(e) && final(r).remaining() == old(
                r,
            ).remaining() && final(r).consumed() == old(r).consumed(),
        },
{
    match read_u8(r) {
        Ok(b) => Ok(b == 1),
        Err(e) => Err(e),
    }
}

/// Appends one byte.
pub fn write_u8(w: &mut Vec<u8>, value: u8)
    ensures
        final(w)@ == old(w)@.push(value),
{
    w.push(value);
}

/// Appends a boolean as the byte 1 or 0.
pub fn write_bool(w: &mut Vec<u8>, value: bool)
    ensures
        final(w)@ == old(w)@ + spec_write_bool(value),
{
    write_u8(w, if value { 1 } else { 0 });
    assert(final(w)@ =~= old(w)@ + spec_write_bool(value));
}


/// `String::from_utf8` of std: the text that `bytes` encode, if they are
/// well-formed UTF-8, and nothing otherwise. Trusted, not proved.
#[verifier::external_body]
fn string_from_utf8(bytes: Vec<u8>) -> (r: Option<String>)
    ensures
        r is Some <==> valid_utf8(bytes@),
        r matches Some(s) ==> s@ == decode_utf8(bytes@),
{
    String::from_utf8(bytes).ok()
}

/// Reads a string: one length byte, then that many bytes of UTF-8. A text
/// that is not there whole is left where it is; one that is no UTF-8 is taken.
pub fn read_string(r: &mut ByteReader) -> (res: Result<String, MessageError>)
    ensures
        final(r).buffer() == old(r).buffer(),
        final(r).remaining() == old(r).remaining().skip(spec_read_string_taken(old(r).remaining())),
        final(r).consumed() == old(r).consumed() + spec_read_string_taken(old(r).remaining()),
        match spec_read_string(old(r).remaining()) {
            Ok((value, n)) => {
                &&& res matches Ok(s)
                &&& s@ == value
                &&& n == spec_read_string_taken(old(r).remaining())
            },
            Err(e) => res == Err::<String, MessageError>(e),
        },
{
    let length = match read_u8(r) {
        Ok(b) => b,
        Err(e) => {
            assert(final(r).remaining() =~= old(r).remaining().skip(0));
            return Err(e);
        },
    };
    let ghost rest = r.remaining();
    let buf = match r.read_exact(length as usize) {
        Ok(b) => b,
        Err(e) => { return Err(e); },
    };
    proof {
        assert(rest == old(r).remaining().skip(1));
        assert(buf@ =~= old(r).remaining().subrange(1, 1 + length));
        assert(final(r).remaining() =~= old(r).remaining().skip(1 + length));
    }
    match string_from_utf8(buf) {
        Some(s) => Ok(s),
        None => Err(MessageError::Utf8),
    }
}

/// Appends a string: the low eight bits of its length in bytes, then its bytes.
pub fn write_string(w: &mut Vec<u8>, value: &str)
    ensures
        final(w)@ == old(w)@ + spec_write_string(value@),
{
    let bytes = value.as_bytes();
    let length: usize = bytes.len();
    write_u8(w, (length % 256) as u8);
    let mut i: usize = 0;
    while i < length
        invariant
            i <= length,
            length == bytes@.len(),
            bytes@ == encode_utf8(value@),
            w@ == old(w)@ + seq![(length % 256) as u8] + bytes@.subrange(0, i as int),
        decreases length - i,
    {
        write_u8(w, bytes[i]);
        assert(w@ =~= old(w)@ + seq![(length % 256) as u8] + bytes@.subrange(0, i + 1));
        i += 1;
    }
    assert(bytes@.subrange(0, length as int) =~= bytes@);
    assert(final(w)@ =~= old(w)@ + spec_write_string(value@));
}

/// A string of at most 255 bytes is read back as it was written, whatever follows it.
pub proof fn lemma_string_round_trip(value: Seq<char>, rest: Seq<u8>)
    requires
        encode_utf8(value).len() <= 255,
    ensures
        spec_read_string(spec_write_string(value) + rest) == Ok::<(Seq<char>, int), MessageError>(
            (value, spec_write_string(value).len() as int),
        ),
{
    broadcast use vstd::utf8::group_utf8_lib;

    let body = encode_utf8(value);
    let all = spec_write_string(value) + rest;
    assert(all[0] == body.len() as u8);
    assert(all.subrange(1, 1 + all[0]) =~= body);
    encode_utf8_valid_utf8(value);
    encode_utf8_decode_utf8(value);
}

/// What has been read of a string stays read when more bytes arrive: only
/// `Io` is a verdict that more input can change.
pub proof fn lemma_read_string_stable(bytes: Seq<u8>, more: Seq<u8>)
    requires
        spec_read_string(bytes) != Err::<(Seq<char>, int), MessageError>(MessageError::Io),
    ensures
        spec_read_string(bytes + more) == spec_read_string(bytes),
{
    let all = bytes + more;
    assert(all[0] == bytes[0]);
    assert(all.subrange(1, 1 + bytes[0]) =~= bytes.subrange(1, 1 + bytes[0]));
}

/// A boolean is read back as it was written, whatever follows it.
pub proof fn lemma_bool_round_trip(value: bool, rest: Seq<u8>)
    ensures
        spec_read_bool(spec_write_bool(value) + rest) == Ok::<(bool, int), MessageError>(
            (value, 1),
        ),
{
}

} // verus!
