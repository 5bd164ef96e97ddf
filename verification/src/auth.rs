//! Credential verification: a submitted password is hashed with SHA3-512,
//! rendered as lowercase hex, and compared byte for byte against the digest
//! stored on the player's row. Every failure mode is non-authenticating:
//! an unknown email, a digest mismatch, and a storage failure stay distinct.

use vstd::prelude::*;

use crypto_hashes::digest::Digest;
use crypto_hashes::sha3::Sha3_512;

use crate::database::models::Player;
use crate::database::{find_player_for_email, find_player_for_id, spec_find_player_by_email, spec_find_player_by_id, Repository};
use crate::text;

verus! {

/// The lowercase-hex rendering of the SHA3-512 digest of a byte string; the
/// digest itself is left unspecified, only that it is a function of the
/// input bytes alone.
pub uninterp spec fn sha3_512_hex_of(bytes: Seq<u8>) -> Seq<char>;

/// Relies on crypto_hashes' `Sha3_512` (through `Digest::digest`) and on
/// generic-array's `LowerHex`: the digest depends on the input bytes alone,
/// is 64 bytes long, and is rendered as two lowercase hex digits per byte.
#[verifier::external_body]
fn sha3_512_hex(input: &[u8]) -> (r: String)
    ensures
        r@ == sha3_512_hex_of(input@),
        r@.len() == 128,
{
    let digest = Sha3_512::digest(input);
    format!("{:x}", digest)
}

/// The digest stored for a password, as a function of the password's
/// characters: the lowercase-hex SHA3-512 of its UTF-8 bytes.
pub open spec fn spec_password_digest(password: Seq<char>) -> Seq<char> {
    sha3_512_hex_of(vstd::utf8::encode_utf8(password))
}

/// Computes the digest stored for a password.
pub fn password_digest(password: &str) -> (r: String)
    ensures
        r@ == spec_password_digest(password@),
{
    sha3_512_hex(password.as_bytes())
}

/// A submitted email and plaintext password.
#[derive(Debug, Clone, PartialEq)]
pub struct Credentials {
    email: String,
    password: String,
}

impl Credentials {
    /// The submitted email.
    pub closed spec fn spec_email(&self) -> Seq<char> {
        self.email@
    }

    /// The submitted plaintext password.
    pub closed spec fn spec_password(&self) -> Seq<char> {
        self.password@
    }

    pub fn new(email: String, password: String) -> (r: Self)
        ensures
            r.spec_email() == email@,
            r.spec_password() == password@,
    {
        Credentials { email, password }
    }
}

/// The failure modes of authentication against the backend; all three are
/// non-authenticating.
#[derive(Debug, Clone, PartialEq, Eq)]
pub enum AuthenticationError {
    UserNotFound,
    PasswordNotCorrect,
    DatabaseError,
}

/// What each authentication error's displayable message reads.
pub open spec fn spec_authentication_error_message(e: AuthenticationError) -> Seq<char> {
    match e {
        AuthenticationError::UserNotFound => "user not found"@,
        AuthenticationError::PasswordNotCorrect => "password for user not correct"@,
        AuthenticationError::DatabaseError => "error from database"@,
    }
}

impl AuthenticationError {
    /// The displayable message for this error.
    pub fn message(&self) -> (r: String)
        ensures
            r@ == spec_authentication_error_message(*self),
    {
        match self {
            AuthenticationError::UserNotFound => "user not found".to_owned(),
            AuthenticationError::PasswordNotCorrect => "password for user not correct".to_owned(),
            AuthenticationError::DatabaseError => "error from database".to_owned(),
        }
    }
}

/// The login-level error a failed submission surfaces.
#[derive(Debug, Clone, PartialEq, Eq)]
pub enum AuthError {
    InvalidLogin,
    Backend,
}

/// What each login error's displayable message reads.
pub open spec fn spec_auth_error_message(e: AuthError) -> Seq<char> {
    match e {
        AuthError::InvalidLogin => "invalid login"@,
        AuthError::Backend => "backend error"@,
    }
}

impl AuthError {
    /// The displayable message for this error.
    pub fn message(&self) -> (r: String)
        ensures
            r@ == spec_auth_error_message(*self),
    {
        match self {
            AuthError::InvalidLogin => "invalid login".to_owned(),
            AuthError::Backend => "backend error".to_owned(),
        }
    }
}

/// Verifies credentials against the stored rows: the player is looked up by
/// email, the submitted password is hashed, and the digests are compared.
/// Fails closed: an unknown email and a wrong password are distinct errors,
/// and authentication succeeds only when the row's digest equals the digest
/// of the submitted password.
pub fn authenticate(creds: Credentials, repo: &Repository) -> (r: Result<
    Option<Player>,
    AuthenticationError,
>)
    ensures
        match spec_find_player_by_email(repo.players(), creds.spec_email()) {
            None => r == Err::<Option<Player>, AuthenticationError>(
                AuthenticationError::UserNotFound,
            ),
            Some(p) => if p.password_hash@ == spec_password_digest(creds.spec_password()) {
                r == Ok::<Option<Player>, AuthenticationError>(Some(p))
            } else {
                r == Err::<Option<Player>, AuthenticationError>(
                    AuthenticationError::PasswordNotCorrect,
                )
            },
        },
{
    let computed = password_digest(creds.password.as_str());
    let player = find_player_for_email(creds.email.as_str(), repo);
    match player {
        Ok(Some(p)) => {
            if text::bytes_equal(
                p.password_hash.as_str().as_bytes(),
                computed.as_str().as_bytes(),
            ) {
                proof {
                    text::lemma_encode_utf8_injective(p.password_hash@, computed@);
                }
                Ok(Some(p))
            } else {
                Err(AuthenticationError::PasswordNotCorrect)
            }
        },
        Ok(None) => Err(AuthenticationError::UserNotFound),
        Err(_) => Err(AuthenticationError::DatabaseError),
    }
}

/// Restores a session's user: a bare lookup by id, where a missing row is
/// not an error but an absent user.
pub fn get_user(player_id: i64, repo: &Repository) -> (r: Result<
    Option<Player>,
    AuthenticationError,
>)
    ensures
        r == Ok::<Option<Player>, AuthenticationError>(
            spec_find_player_by_id(repo.players(), player_id),
        ),
{
    match find_player_for_id(player_id, repo) {
        Ok(p) => Ok(p),
        Err(_) => Err(AuthenticationError::DatabaseError),
    }
}

} // verus!
