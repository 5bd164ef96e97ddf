use as_manager::auth::{
    authenticate, get_user, password_digest, AuthError, AuthenticationError, Credentials,
};
use as_manager::database::models::Player;
use as_manager::database::{create_player, Repository};
use as_manager::server::{do_login, do_register, AppError};

use crypto_hashes::digest::Digest;
use crypto_hashes::sha3::Sha3_512;

#[test]
fn register_then_login_succeeds() {
    let mut repo = Repository::new();
    assert_eq!(
        do_register(
            "a@example.com".to_string(),
            "alpha".to_string(),
            "hunter2".to_string(),
            &mut repo,
        ),
        Ok(true)
    );

    let creds = Credentials::new("a@example.com".to_string(), "hunter2".to_string());
    let player = authenticate(creds, &repo).unwrap().unwrap();
    assert_eq!(player.id, 1);
    assert_eq!(player.tag_name, "alpha");
}

#[test]
fn stored_digest_matches_reference_sha3() {
    // Seed the row with a digest computed independently of the library; the
    // login below only succeeds if the library hashes the password the same
    // way rather than, say, storing or comparing the plaintext.
    let reference = format!("{:x}", Sha3_512::digest(b"hunter2"));
    assert_eq!(reference.len(), 128);

    let mut repo = Repository::new();
    create_player(
        "a@example.com".to_string(),
        "alpha".to_string(),
        reference.clone(),
        &mut repo,
    )
    .unwrap();

    let creds = Credentials::new("a@example.com".to_string(), "hunter2".to_string());
    assert!(authenticate(creds, &repo).is_ok());

    assert_eq!(password_digest("hunter2"), reference);
}

#[test]
fn wrong_password_is_rejected() {
    let mut repo = Repository::new();
    do_register(
        "a@example.com".to_string(),
        "alpha".to_string(),
        "hunter2".to_string(),
        &mut repo,
    )
    .unwrap();

    let creds = Credentials::new("a@example.com".to_string(), "wrong".to_string());
    assert_eq!(
        authenticate(creds, &repo),
        Err(AuthenticationError::PasswordNotCorrect)
    );
}

#[test]
fn unknown_email_is_rejected() {
    let repo = Repository::new();
    let creds = Credentials::new("nobody@example.com".to_string(), "pw".to_string());
    assert_eq!(authenticate(creds, &repo), Err(AuthenticationError::UserNotFound));
}

#[test]
fn login_maps_failures_to_backend_error() {
    let mut repo = Repository::new();
    do_register(
        "a@example.com".to_string(),
        "alpha".to_string(),
        "hunter2".to_string(),
        &mut repo,
    )
    .unwrap();

    let good = Credentials::new("a@example.com".to_string(), "hunter2".to_string());
    let player = do_login(good, &repo).unwrap();
    assert_eq!(player.id, 1);

    let bad = Credentials::new("a@example.com".to_string(), "wrong".to_string());
    assert_eq!(do_login(bad, &repo), Err(AppError::AuthError(AuthError::Backend)));

    let unknown = Credentials::new("b@example.com".to_string(), "hunter2".to_string());
    assert_eq!(
        do_login(unknown, &repo),
        Err(AppError::AuthError(AuthError::Backend))
    );
}

#[test]
fn get_user_restores_by_id() {
    let mut repo = Repository::new();
    do_register(
        "a@example.com".to_string(),
        "alpha".to_string(),
        "pw".to_string(),
        &mut repo,
    )
    .unwrap();

    let restored: Option<Player> = get_user(1, &repo).unwrap();
    assert_eq!(restored.unwrap().email, "a@example.com");
    assert!(get_user(2, &repo).unwrap().is_none());
}

#[test]
fn duplicate_registration_is_surfaced() {
    let mut repo = Repository::new();
    do_register(
        "a@example.com".to_string(),
        "alpha".to_string(),
        "pw".to_string(),
        &mut repo,
    )
    .unwrap();

    let result = do_register(
        "a@example.com".to_string(),
        "beta".to_string(),
        "pw".to_string(),
        &mut repo,
    );
    assert!(matches!(
        result,
        Err(AppError::Database(
            as_manager::database::DatabaseError::CreateUserEmailExists(_)
        ))
    ));
}

#[test]
fn authentication_error_messages() {
    assert_eq!(AuthenticationError::UserNotFound.message(), "user not found");
    assert_eq!(
        AuthenticationError::PasswordNotCorrect.message(),
        "password for user not correct"
    );
    assert_eq!(AuthenticationError::DatabaseError.message(), "error from database");
    assert_eq!(AuthError::InvalidLogin.message(), "invalid login");
    assert_eq!(AuthError::Backend.message(), "backend error");
}
