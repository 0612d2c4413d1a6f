//! The login protocol as values: what a client sends, what the server
//! answers, and the credentials an account is checked against.

use crate::realm_list::Realm;
use vstd::prelude::*;

verus! {

/// A client build.
#[derive(Clone, Copy, Debug, PartialEq, Eq, Structural)]
pub struct Version {
    pub major: u8,
    pub minor: u8,
    pub patch: u8,
    pub build: u16,
}

impl Version {
    /// PIN entry exists from 1.12 on.
    pub open spec fn spec_supports_pin(self) -> bool {
        !(self.major == 0 || (self.major == 1 && self.minor <= 11))
    }

    /// Matrix cards exist from 2.0.3 on.
    pub open spec fn spec_supports_matrix_card(self) -> bool {
        !(self.major <= 1 || (self.major == 2 && self.minor == 0 && self.patch <= 2))
    }

    #[verifier::when_used_as_spec(spec_supports_pin)]
    pub fn supports_pin(self) -> (r: bool)
        ensures
            r == self.spec_supports_pin(),
    {
        !(self.major == 0 || (self.major == 1 && self.minor <= 11))
    }

    #[verifier::when_used_as_spec(spec_supports_matrix_card)]
    pub fn supports_matrix_card(self) -> (r: bool)
        ensures
            r == self.spec_supports_matrix_card(),
    {
        !(self.major <= 1 || (self.major == 2 && self.minor == 0 && self.patch <= 2))
    }
}

/// The message that opens a fresh logon.
#[derive(Debug, Clone, PartialEq, Eq)]
pub struct LogonChallenge {
    pub protocol_version: u8,
    pub version: Version,
    pub platform: u32,
    pub os: u32,
    pub locale: u32,
    pub utc_timezone_offset: i32,
    pub client_ip_address: [u8; 4],
    pub account_name: String,
}

/// The message that opens the resumption of a session.
#[derive(Debug, Clone, PartialEq, Eq)]
pub struct ReconnectChallenge {
    pub protocol_version: u8,
    pub version: Version,
    pub platform: u32,
    pub os: u32,
    pub locale: u32,
    pub utc_timezone_offset: i32,
    pub client_ip_address: [u8; 4],
    pub account_name: String,
}

impl ReconnectChallenge {
    /// The logon challenge with the same fields, as the realm list is asked
    /// for after a reconnect.
    pub fn into_logon_challenge(self) -> (r: LogonChallenge)
        ensures
            r == (LogonChallenge {
                protocol_version: self.protocol_version,
                version: self.version,
                platform: self.platform,
                os: self.os,
                locale: self.locale,
                utc_timezone_offset: self.utc_timezone_offset,
                client_ip_address: self.client_ip_address,
                account_name: self.account_name,
            }),
    {
        LogonChallenge {
            protocol_version: self.protocol_version,
            version: self.version,
            platform: self.platform,
            os: self.os,
            locale: self.locale,
            utc_timezone_offset: self.utc_timezone_offset,
            client_ip_address: self.client_ip_address,
            account_name: self.account_name,
        }
    }
}

/// The PIN part of a logon proof.
#[derive(Clone, Copy, Debug, PartialEq, Eq)]
pub struct PinProof {
    pub pin_hash: [u8; 20],
    pub pin_salt: [u8; 16],
}

/// The client's half of the password proof, with its two-factor parts.
#[derive(Clone, Copy, Debug, PartialEq, Eq)]
pub struct LogonProof {
    pub client_public_key: [u8; 32],
    pub client_proof: [u8; 20],
    pub crc_hash: [u8; 20],
    pub pin: Option<PinProof>,
    pub matrix_card_proof: Option<[u8; 20]>,
}

/// The client's answer to a reconnect challenge.
#[derive(Clone, Copy, Debug, PartialEq, Eq)]
pub struct ReconnectProof {
    pub proof_data: [u8; 16],
    pub client_proof: [u8; 20],
    pub client_checksum: [u8; 20],
}

/// A message read from a client.
#[derive(Debug, Clone, PartialEq, Eq)]
pub enum ClientMessage {
    LogonChallenge(LogonChallenge),
    LogonProof(LogonProof),
    ReconnectChallenge(ReconnectChallenge),
    ReconnectProof(ReconnectProof),
    RealmList,
    XferAccept,
    XferResume { offset: u64 },
    XferCancel,
}

impl ClientMessage {
    /// The opcode byte that the message travels under.
    pub open spec fn spec_opcode(&self) -> u8 {
        match self {
            ClientMessage::LogonChallenge(_) => 0x00,
            ClientMessage::LogonProof(_) => 0x01,
            ClientMessage::ReconnectChallenge(_) => 0x02,
            ClientMessage::ReconnectProof(_) => 0x03,
            ClientMessage::RealmList => 0x10,
            ClientMessage::XferAccept => 0x32,
            ClientMessage::XferResume { .. } => 0x33,
            ClientMessage::XferCancel => 0x34,
        }
    }

    #[verifier::when_used_as_spec(spec_opcode)]
    pub fn opcode(&self) -> (r: u8)
        ensures
            r == self.spec_opcode(),
    {
        match self {
            ClientMessage::LogonChallenge(_) => 0x00,
            ClientMessage::LogonProof(_) => 0x01,
            ClientMessage::ReconnectChallenge(_) => 0x02,
            ClientMessage::ReconnectProof(_) => 0x03,
            ClientMessage::RealmList => 0x10,
            ClientMessage::XferAccept => 0x32,
            ClientMessage::XferResume { .. } => 0x33,
            ClientMessage::XferCancel => 0x34,
        }
    }
}

/// What the server asks of the PIN.
#[derive(Clone, Copy, Debug, PartialEq, Eq)]
pub struct PinChallenge {
    pub pin_grid_seed: u32,
    pub pin_salt: [u8; 16],
}

/// What the server asks of the matrix card.
#[derive(Clone, Copy, Debug, PartialEq, Eq)]
pub struct MatrixCardChallenge {
    pub challenge_count: u8,
    pub digit_count: u8,
    pub height: u8,
    pub seed: u64,
    pub width: u8,
}

/// The second factors that a logon challenge asks for.
#[derive(Clone, Copy, Debug, PartialEq, Eq)]
pub struct SecurityFlag {
    pub pin: Option<PinChallenge>,
    pub matrix_card: Option<MatrixCardChallenge>,
}

/// The verdict that closes a reconnect.
#[derive(Clone, Copy, Debug, PartialEq, Eq, Structural)]
pub enum LoginResult {
    Success,
    FailIncorrectPassword,
    FailVersionInvalid,
}

/// A message to send to a client.
#[derive(Debug, Clone, PartialEq, Eq)]
pub enum ServerMessage {
    LogonChallengeSuccess {
        crc_salt: [u8; 16],
        generator: u8,
        large_safe_prime: [u8; 32],
        salt: [u8; 32],
        security_flag: SecurityFlag,
        server_public_key: [u8; 32],
    },
    LogonChallengeFailUnknownAccount,
    LogonChallengeLoginDownloadFile,
    LogonProofSuccess { account_flag: u32, hardware_survey_id: u32, server_proof: [u8; 20], unknown: u16 },
    LogonProofFailIncorrectPassword,
    LogonProofFailVersionInvalid,
    ReconnectChallengeSuccess { challenge_data: [u8; 16], checksum_salt: [u8; 16] },
    ReconnectChallengeFailUnknownAccount,
    ReconnectProof { result: LoginResult },
    RealmList { realms: Vec<Realm> },
    XferInitiate { filename: String, file_size: u64, file_md5: [u8; 16] },
    XferData { data: Vec<u8> },
}

/// A matrix card: a table of `height` by `width` cells of `digit_count` digits each.
#[derive(Debug, Ord, PartialOrd, Eq, PartialEq, Hash)]
pub struct MatrixCard {
    digit_count: u8,
    height: u8,
    width: u8,
    data: Vec<u8>,
}

impl Clone for MatrixCard {
    fn clone(&self) -> (r: MatrixCard)
        ensures
            r.spec_digit_count() == self.spec_digit_count(),
            r.spec_height() == self.spec_height(),
            r.spec_width() == self.spec_width(),
            r.spec_data() == self.spec_data(),
    {
        proof {
            use_type_invariant(self);
        }
        let data = self.data.clone();
        MatrixCard { digit_count: self.digit_count, height: self.height, width: self.width, data }
    }
}

impl MatrixCard {
    #[verifier::type_invariant]
    spec fn well_formed(&self) -> bool {
        self.data@.len() == self.digit_count * self.height * self.width
    }

    pub closed spec fn spec_digit_count(&self) -> u8 {
        self.digit_count
    }

    pub closed spec fn spec_height(&self) -> u8 {
        self.height
    }

    pub closed spec fn spec_width(&self) -> u8 {
        self.width
    }

    /// The digits of the card, cell after cell.
    pub closed spec fn spec_data(&self) -> Seq<u8> {
        self.data@
    }

    /// A card with the given digits, if there is one digit for every place of every cell.
    pub fn from_data(digit_count: u8, height: u8, width: u8, data: Vec<u8>) -> (r: Option<Self>)
        ensures
            r is Some <==> data@.len() == digit_count * height * width,
            r matches Some(card) ==> card.spec_digit_count() == digit_count && card.spec_height()
                == height && card.spec_width() == width && card.spec_data() == data@,
    {
        assert(digit_count * height * width <= 255 * 255 * 255) by (nonlinear_arith)
            requires
                digit_count <= 255,
                height <= 255,
                width <= 255,
        ;
        assert(0 <= digit_count * height) by (nonlinear_arith);
        assert(digit_count * height <= 255 * 255) by (nonlinear_arith)
            requires
                digit_count <= 255,
                height <= 255,
        ;
        let cells: u64 = (digit_count as u64) * (height as u64) * (width as u64);
        if data.len() as u64 == cells {
            Some(MatrixCard { digit_count, height, width, data })
        } else {
            None
        }
    }

    #[verifier::when_used_as_spec(spec_digit_count)]
    pub fn digit_count(&self) -> (r: u8)
        ensures
            r == self.spec_digit_count(),
    {
        self.digit_count
    }

    #[verifier::when_used_as_spec(spec_height)]
    pub fn height(&self) -> (r: u8)
        ensures
            r == self.spec_height(),
    {
        self.height
    }

    #[verifier::when_used_as_spec(spec_width)]
    pub fn width(&self) -> (r: u8)
        ensures
            r == self.spec_width(),
    {
        self.width
    }

    /// The digits of the card, cell after cell.
    pub fn data(&self) -> (r: &Vec<u8>)
        ensures
            r@ == self.spec_data(),
            r@.len() == self.spec_digit_count() * self.spec_height() * self.spec_width(),
    {
        proof {
            use_type_invariant(self);
        }
        &self.data
    }
}

/// A matrix card and the number of cells a client is asked for.
#[derive(Debug, Clone, Ord, PartialOrd, Eq, PartialEq, Hash)]
pub struct MatrixCardOptions {
    pub matrix_card: MatrixCard,
    pub challenge_count: u8,
}

/// What an account is checked against.
#[derive(Debug, Clone, Ord, PartialOrd, Eq, PartialEq, Hash)]
pub struct Credentials {
    pub password_verifier: [u8; 32],
    pub salt: [u8; 32],
    pub pin: Option<u32>,
    pub matrix_card: Option<MatrixCardOptions>,
}

/// What configures the login server.
#[derive(Clone, Copy, Debug, Ord, PartialOrd, Eq, PartialEq, Hash, Structural)]
pub struct Options {
    /// Whether each challenge shuffles the PIN grid anew.
    pub randomize_pin_grid: bool,
    /// The number of connections served at once.
    pub max_concurrent_users: u32,
}

} // verus!
