//! A credential source for trials: every account exists, and its password is its name.

use crate::protocol::{Credentials, LogonChallenge, MatrixCard, MatrixCardOptions, Version};
use crate::srp::{
    ascii_uppercase, normalize, srp_password_verifier, valid_account_name, verifier_from_password,
};
use vstd::prelude::*;

verus! {

pub const DIGIT_COUNT: u8 = 2;

pub const CHALLENGE_COUNT: u8 = 1;

pub const HEIGHT: u8 = 8;

pub const WIDTH: u8 = 8;

/// The PIN of every account that has one.
pub const PIN: u32 = 1234;

/// The source and what it hands out besides the password.
#[derive(Debug, Copy, Clone)]
pub struct ProviderImpl {
    use_pin: bool,
    use_matrix_card: bool,
}

/// The second factors of an account, as far as they can be told without its card.
pub open spec fn second_factors_fit(
    credentials: Credentials,
    version: Version,
    use_pin: bool,
    use_matrix_card: bool,
) -> bool {
    &&& credentials.pin == if version.spec_supports_pin() && use_pin {
        Some(PIN)
    } else {
        None
    }
    &&& match credentials.matrix_card {
        Some(card) => {
            &&& version.spec_supports_matrix_card() && use_matrix_card
            &&& card.challenge_count == CHALLENGE_COUNT
            &&& card.matrix_card.spec_digit_count() == DIGIT_COUNT
            &&& card.matrix_card.spec_height() == HEIGHT
            &&& card.matrix_card.spec_width() == WIDTH
            &&& card.matrix_card.spec_data() == Seq::new(128, |i: int| 0u8)
        },
        None => !(version.spec_supports_matrix_card() && use_matrix_card),
    }
}

/// The credentials of an account with the given verifier and salt: a PIN and
/// a matrix card of zeros where the source hands them out and the client's
/// build knows them.
pub fn credentials_for(
    version: Version,
    use_pin: bool,
    use_matrix_card: bool,
    password_verifier: [u8; 32],
    salt: [u8; 32],
) -> (r: Credentials)
    ensures
        r.password_verifier == password_verifier,
        r.salt == salt,
        second_factors_fit(r, version, use_pin, use_matrix_card),
{
    let matrix_card = if version.supports_matrix_card() && use_matrix_card {
        let mut data: Vec<u8> = Vec::new();
        let mut i: usize = 0;
        while i < 128
            invariant
                i <= 128,
                data@ == Seq::new(i as nat, |j: int| 0u8),
            decreases 128 - i,
        {
            data.push(0);
            assert(data@ =~= Seq::new((i + 1) as nat, |j: int| 0u8));
            i += 1;
        }
        match MatrixCard::from_data(DIGIT_COUNT, HEIGHT, WIDTH, data) {
            Some(matrix_card) => Some(MatrixCardOptions { matrix_card, challenge_count: CHALLENGE_COUNT }),
            None => None,
        }
    } else {
        None
    };
    let pin = if version.supports_pin() && use_pin {
        Some(PIN)
    } else {
        None
    };
    Credentials { password_verifier, salt, pin, matrix_card }
}

impl ProviderImpl {
    pub fn new(use_pin: bool, use_matrix_card: bool) -> (r: Self)
        ensures
            r.spec_use_pin() == use_pin,
            r.spec_use_matrix_card() == use_matrix_card,
    {
        Self { use_pin, use_matrix_card }
    }

    pub closed spec fn spec_use_pin(&self) -> bool {
        self.use_pin
    }

    pub closed spec fn spec_use_matrix_card(&self) -> bool {
        self.use_matrix_card
    }

    /// The credentials of `username`: a verifier for the password that equals
    /// the name, under a fresh salt, and the second factors of the source. A
    /// name that cannot be normalized has no account.
    pub fn get_user(&mut self, username: &str, message: &LogonChallenge) -> (r: Option<Credentials>)
        ensures
            *final(self) == *old(self),
            r is Some <==> valid_account_name(username@),
            r matches Some(credentials) ==> second_factors_fit(
                credentials,
                message.version,
                old(self).spec_use_pin(),
                old(self).spec_use_matrix_card(),
            ) && credentials.password_verifier@ == srp_password_verifier(
                ascii_uppercase(username@),
                ascii_uppercase(username@),
                credentials.salt@,
            ),
    {
        let name = match normalize(username) {
            Some(n) => n,
            None => { return None; },
        };
        let password = match normalize(username) {
            Some(n) => n,
            None => { return None; },
        };
        let (password_verifier, salt) = verifier_from_password(name, password);
        Some(
            credentials_for(
                message.version,
                self.use_pin,
                self.use_matrix_card,
                password_verifier,
                salt,
            ),
        )
    }

    /// The source takes no new accounts.
    pub fn add_user(&mut self, _username: &str, _password: &str) -> (r: Option<()>)
        ensures
            *final(self) == *old(self),
            r is None,
    {
        None
    }
}

} // verus!
