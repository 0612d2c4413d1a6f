//! The SRP6 and MD5 primitives that the library takes from outside crates.
//! Every item here is trusted: its contract is believed, not proved.

use vstd::prelude::*;

verus! {

/// An account name in the form the password proof is computed over.
#[verifier::external_type_specification]
#[verifier::external_body]
pub struct ExNormalizedString(wow_srp::normalized_string::NormalizedString);

/// The server's half of a password proof, waiting for the client's half.
#[verifier::external_type_specification]
#[verifier::external_body]
pub struct ExSrpProof(wow_srp::server::SrpProof);

/// The state of a session whose password proof succeeded.
#[verifier::external_type_specification]
#[verifier::external_body]
pub struct ExSrpServer(wow_srp::server::SrpServer);

/// Why 32 bytes are no public key.
#[derive(Clone, Copy, Debug, PartialEq, Eq, Structural)]
pub enum InvalidPublicKeyError {
    PublicKeyIsZero,
    PublicKeyModLargeSafePrimeIsZero,
}

/// The large safe prime of the protocol, least significant byte first.
pub open spec fn large_safe_prime() -> Seq<u8> {
    seq![
        0xb7u8, 0x9b, 0x3e, 0x2a, 0x87, 0x82, 0x3c, 0xab, 0x8f, 0x5e, 0xbf, 0xbf, 0x8e, 0xb1, 0x01, 0x08,
        0x53, 0x50, 0x06, 0x29, 0x8b, 0x5b, 0xad, 0xbd, 0x5b, 0x53, 0xe1, 0x89, 0x5e, 0x64, 0x4b, 0x89,
    ]
}

/// The generator of the protocol.
pub const GENERATOR: u8 = 7;

/// A name can be normalized if it has 1 to 16 characters, each of them
/// printable ASCII.
pub open spec fn valid_account_name(name: Seq<char>) -> bool {
    &&& 1 <= name.len() <= 16
    &&& forall|i: int| 0 <= i < name.len() ==> 0x20 <= #[trigger] name[i] as u32 <= 0x7e
}

/// A key is accepted if some byte of it is neither zero nor the byte of the
/// large safe prime at that place.
pub open spec fn valid_public_key(key: Seq<u8>) -> bool {
    exists|i: int| 0 <= i < 32 && #[trigger] key[i] != 0 && key[i] != large_safe_prime()[i]
}

/// A password verifier can be used if it is not zero modulo the large safe
/// prime: of 32 bytes, only zero and the prime itself are.
pub open spec fn valid_password_verifier(verifier: Seq<u8>) -> bool {
    &&& verifier != Seq::new(32, |i: int| 0u8)
    &&& verifier != large_safe_prime()
}

/// A letter of the lower case as the same letter of the upper case, any
/// other byte as it is.
pub open spec fn ascii_uppercase_byte(byte: u8) -> u8 {
    if 0x61 <= byte <= 0x7a {
        (byte - 0x20) as u8
    } else {
        byte
    }
}

/// The bytes of a valid name with its letters in the upper case.
pub open spec fn ascii_uppercase(name: Seq<char>) -> Seq<u8> {
    Seq::new(name.len(), |i: int| ascii_uppercase_byte(name[i] as u8))
}

/// The bytes that a normalized name holds.
pub uninterp spec fn srp_username(name: wow_srp::normalized_string::NormalizedString) -> Seq<u8>;

/// The password verifier that belongs to a name, a password and a salt.
pub uninterp spec fn srp_password_verifier(username: Seq<u8>, password: Seq<u8>, salt: Seq<u8>) -> Seq<
    u8,
>;

/// The name that a pending proof was made for.
pub uninterp spec fn srp_proof_username(proof: wow_srp::server::SrpProof) -> Seq<u8>;

/// The password verifier that a pending proof was made with.
pub uninterp spec fn srp_proof_verifier(proof: wow_srp::server::SrpProof) -> Seq<u8>;

/// The salt that a pending proof was made with.
pub uninterp spec fn srp_proof_salt(proof: wow_srp::server::SrpProof) -> Seq<u8>;

/// The server's public key of a pending proof.
pub uninterp spec fn srp_proof_public_key(proof: wow_srp::server::SrpProof) -> Seq<u8>;

/// The proof that the server answers with, where the client's key and proof are accepted.
pub uninterp spec fn srp_server_proof(
    proof: wow_srp::server::SrpProof,
    client_public_key: Seq<u8>,
    client_proof: Seq<u8>,
) -> Option<Seq<u8>>;

/// The session key that a pending proof and a client's public key lead to.
pub uninterp spec fn srp_negotiated_key(proof: wow_srp::server::SrpProof, client_public_key: Seq<u8>) -> Seq<
    u8,
>;

/// The session key of an established session.
pub uninterp spec fn srp_session_key(server: wow_srp::server::SrpServer) -> Seq<u8>;

/// The challenge that a client has to answer to resume a session.
pub uninterp spec fn srp_reconnect_challenge(server: wow_srp::server::SrpServer) -> Seq<u8>;

/// Whether a session accepts the client's answer to its reconnect challenge.
pub uninterp spec fn srp_reconnect_accepts(
    server: wow_srp::server::SrpServer,
    client_data: Seq<u8>,
    client_proof: Seq<u8>,
) -> bool;

/// The MD5 digest of `data`.
pub uninterp spec fn md5_digest(data: Seq<u8>) -> Seq<u8>;

/// `LARGE_SAFE_PRIME_LITTLE_ENDIAN` of wow_srp.
#[verifier::external_body]
pub(crate) fn large_safe_prime_bytes() -> (r: [u8; 32])
    ensures
        r@ == large_safe_prime(),
{
    wow_srp::LARGE_SAFE_PRIME_LITTLE_ENDIAN
}

/// `NormalizedString::new` of wow_srp: accepts a name of 1 to 16 bytes whose
/// characters are all ASCII and no control characters, and refuses any other.
/// What it accepts it holds with the letters in the upper case.
#[verifier::external_body]
pub(crate) fn normalize(name: &str) -> (r: Option<wow_srp::normalized_string::NormalizedString>)
    ensures
        r is Some <==> valid_account_name(name@),
        r matches Some(normalized) ==> srp_username(normalized) == ascii_uppercase(name@),
{
    wow_srp::normalized_string::NormalizedString::new(name).ok()
}

/// `SrpVerifier::from_database_values` and `SrpVerifier::into_proof` of
/// wow_srp: a pending proof that keeps the name, the verifier and the salt it
/// is given. The server's key pair is drawn at random; the outside function
/// gives up if the public key it drew is zero modulo the prime.
#[verifier::external_body]
pub(crate) fn into_proof(
    username: wow_srp::normalized_string::NormalizedString,
    password_verifier: [u8; 32],
    salt: [u8; 32],
) -> (r: wow_srp::server::SrpProof)
    ensures
        srp_proof_username(r) == srp_username(username),
        srp_proof_verifier(r) == password_verifier@,
        srp_proof_salt(r) == salt@,
{
    wow_srp::server::SrpVerifier::from_database_values(username, password_verifier, salt).into_proof()
}

/// `SrpProof::salt` of wow_srp.
#[verifier::external_body]
pub(crate) fn proof_salt(proof: &wow_srp::server::SrpProof) -> (r: [u8; 32])
    ensures
        r@ == srp_proof_salt(*proof),
{
    *proof.salt()
}

/// `SrpProof::server_public_key` of wow_srp.
#[verifier::external_body]
pub(crate) fn proof_server_public_key(proof: &wow_srp::server::SrpProof) -> (r: [u8; 32])
    ensures
        r@ == srp_proof_public_key(*proof),
{
    *proof.server_public_key()
}

/// `PublicKey::from_le_bytes` and `SrpProof::into_server` of wow_srp. The
/// first refuses a key whose every byte is zero or equal to the prime's byte
/// at that place, and tells by the first byte which of the two it takes the
/// key for. The second checks the client's proof against the one the server
/// computes, and on a match hands out the session, which holds the key that
/// the two sides have negotiated, and the server's proof. On the way it
/// raises a product of the client's key and a power of the verifier to the
/// server's private key, modulo the prime, and panics where that is zero: with
/// a key that the first has accepted, that is where the verifier is zero
/// modulo the prime, which the `requires` leaves out.
#[verifier::external_body]
pub(crate) fn into_server(
    proof: wow_srp::server::SrpProof,
    client_public_key: [u8; 32],
    client_proof: [u8; 20],
) -> (r: Result<Option<(wow_srp::server::SrpServer, [u8; 20])>, InvalidPublicKeyError>)
    requires
        valid_password_verifier(srp_proof_verifier(proof)),
    ensures
        r is Ok <==> valid_public_key(client_public_key@),
        r matches Err(e) ==> e == if client_public_key@[0] == 0 {
            InvalidPublicKeyError::PublicKeyIsZero
        } else {
            InvalidPublicKeyError::PublicKeyModLargeSafePrimeIsZero
        },
        r matches Ok(Some(found)) ==> srp_server_proof(proof, client_public_key@, client_proof@)
            == Some(found.1@) && srp_session_key(found.0) == srp_negotiated_key(
            proof,
            client_public_key@,
        ),
        r matches Ok(None) ==> srp_server_proof(proof, client_public_key@, client_proof@) is None,
{
    match wow_srp::PublicKey::from_le_bytes(client_public_key) {
        Ok(key) => Ok(proof.into_server(key, client_proof).ok()),
        Err(wow_srp::error::InvalidPublicKeyError::PublicKeyIsZero) => Err(
            InvalidPublicKeyError::PublicKeyIsZero,
        ),
        Err(wow_srp::error::InvalidPublicKeyError::PublicKeyModLargeSafePrimeIsZero) => Err(
            InvalidPublicKeyError::PublicKeyModLargeSafePrimeIsZero,
        ),
    }
}

/// `SrpServer::session_key` of wow_srp.
#[verifier::external_body]
pub(crate) fn session_key(server: &wow_srp::server::SrpServer) -> (r: [u8; 40])
    ensures
        r@ == srp_session_key(*server),
{
    *server.session_key()
}

/// `SrpServer::reconnect_challenge_data` of wow_srp.
#[verifier::external_body]
pub(crate) fn reconnect_challenge_data(server: &wow_srp::server::SrpServer) -> (r: [u8; 16])
    ensures
        r@ == srp_reconnect_challenge(*server),
{
    *server.reconnect_challenge_data()
}

/// `SrpServer::verify_reconnection_attempt` of wow_srp: says whether the
/// client's proof is the one the session computes from the client's data, its
/// own challenge and the session key. It then draws a new challenge.
#[verifier::external_body]
pub(crate) fn verify_reconnection_attempt(
    server: &mut wow_srp::server::SrpServer,
    client_data: [u8; 16],
    client_proof: [u8; 20],
) -> (r: bool)
    ensures
        r == srp_reconnect_accepts(*old(server), client_data@, client_proof@),
{
    server.verify_reconnection_attempt(client_data, client_proof)
}

/// `Clone::clone` of wow_srp's `SrpServer`, which copies every field.
#[verifier::external_body]
pub(crate) fn clone_server(server: &wow_srp::server::SrpServer) -> (r: wow_srp::server::SrpServer)
    ensures
        r == *server,
{
    server.clone()
}

/// `SrpVerifier::from_username_and_password` of wow_srp, with the verifier and
/// the salt it made read out. The salt is drawn at random; the verifier is the
/// one that belongs to the name, the password and that salt.
#[verifier::external_body]
pub(crate) fn verifier_from_password(
    username: wow_srp::normalized_string::NormalizedString,
    password: wow_srp::normalized_string::NormalizedString,
) -> (r: ([u8; 32], [u8; 32]))
    ensures
        r.0@ == srp_password_verifier(srp_username(username), srp_username(password), r.1@),
{
    let v = wow_srp::server::SrpVerifier::from_username_and_password(username, password);
    (*v.password_verifier(), *v.salt())
}

/// `md5::compute` of the md5 crate.
#[verifier::external_body]
pub(crate) fn md5_compute(data: &[u8]) -> (r: [u8; 16])
    ensures
        r@ == md5_digest(data@),
{
    md5::compute(data).0
}

} // verus!
