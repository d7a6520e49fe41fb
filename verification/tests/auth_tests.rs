//! End-to-end tests of the auth core: hashing, tokens, the session
//! lifecycle, the authenticator and the admin gate.

use securecart::auth::{
    process_sign_in, process_sign_up, require_admin, sign_out, SignInData, SignInError,
    SignUpData, SignUpError,
};
use securecart::crypto::{generate_session_token, hash_password, token_digest, verify_password};
use securecart::sessions::{
    create_session_with_token, validate_session, AuthError, SessionError, SessionStore,
};
use securecart::users::{NewUser, UserStore};
use securecart::SESSION_LIFETIME_SECONDS;

const NOW: i64 = 1_700_000_000;

fn stores_with_user(email: &str, password: &str, is_admin: bool) -> (UserStore, SessionStore) {
    let mut users = UserStore::new();
    let hash = hash_password(password).expect("hashing must succeed");
    users
        .insert(NewUser { email, password: &hash }, is_admin)
        .expect("insert must succeed");
    (users, SessionStore::new())
}

fn sign_in_data(email: &str, password: &str) -> SignInData {
    SignInData { email: email.to_string(), password: password.to_string() }
}

// Password hashing round trip: a fresh hash verifies the password it
// was made from, and no other.
#[test]
fn password_round_trip() {
    let hash = hash_password("Secret123").expect("hashing must succeed");
    assert!(verify_password("Secret123", &hash));
    assert!(!verify_password("Secret124", &hash));
    assert!(!verify_password("", &hash));
    assert_ne!(hash, "Secret123");
}

// A second hash of the same password uses a fresh salt, so the encoded
// strings differ, yet both verify.
#[test]
fn password_hash_fresh_salt() {
    let h1 = hash_password("Secret123").expect("hashing must succeed");
    let h2 = hash_password("Secret123").expect("hashing must succeed");
    assert_ne!(h1, h2);
    assert!(verify_password("Secret123", &h1));
    assert!(verify_password("Secret123", &h2));
}

// A malformed stored hash counts as incorrect credentials, not an error.
#[test]
fn malformed_hash_never_verifies() {
    assert!(!verify_password("Secret123", ""));
    assert!(!verify_password("Secret123", "not-a-phc-string"));
    assert!(!verify_password("Secret123", "$argon2id$garbage"));
}

// Token uniqueness: many generated tokens hold no collision, and their
// digests hold none either.
#[test]
fn token_uniqueness() {
    let n = 1000;
    let mut tokens: Vec<String> = Vec::new();
    let mut digests: Vec<String> = Vec::new();
    for _ in 0..n {
        let t = generate_session_token();
        assert_eq!(t.len(), 32);
        digests.push(token_digest(&t));
        tokens.push(t);
    }
    let mut sorted_tokens = tokens.clone();
    sorted_tokens.sort();
    sorted_tokens.dedup();
    assert_eq!(sorted_tokens.len(), n);
    let mut sorted_digests = digests.clone();
    sorted_digests.sort();
    sorted_digests.dedup();
    assert_eq!(sorted_digests.len(), n);
}

// Tokens use the lower-case RFC 4648 base-32 alphabet; 20 bytes fill
// exactly 32 characters, so no padding appears.
#[test]
fn token_alphabet() {
    for _ in 0..50 {
        let t = generate_session_token();
        assert_eq!(t.len(), 32);
        assert!(t.chars().all(|c| ('a'..='z').contains(&c) || ('2'..='7').contains(&c)));
    }
}

// The session identifier is the hex SHA-256 digest of the token.
#[test]
fn digest_known_vector() {
    assert_eq!(
        token_digest("abc"),
        "ba7816bf8f01cfea414140de5dae2223b00361a396177a9cb410ff61f20015ad"
    );
    assert_eq!(
        token_digest(""),
        "e3b0c44298fc1c149afbf4c8996fb92427ae41e4649b934ca495991b7852b855"
    );
}

// Expiry enforcement: a session read after its expiry fails validation
// and the failing read removes the row from storage.
#[test]
fn expired_session_fails_and_is_purged() {
    let mut sessions = SessionStore::new();
    let token = generate_session_token();
    let row = create_session_with_token(&mut sessions, 7, &token, NOW).expect("create");
    assert_eq!(row.expires_at, NOW + SESSION_LIFETIME_SECONDS);
    assert_eq!(sessions.len(), 1);

    // One second past the expiry instant: must fail, row must be gone.
    let late = row.expires_at + 1;
    assert_eq!(validate_session(&mut sessions, &token, late), Err(AuthError::Unauthenticated));
    assert_eq!(sessions.len(), 0);
    assert_eq!(sessions.lookup(&token_digest(&token)), None);
}

// The expiry bound is strict: exactly at the expiry instant the session
// still validates.
#[test]
fn expiry_boundary_is_strict() {
    let mut sessions = SessionStore::new();
    let token = generate_session_token();
    let row = create_session_with_token(&mut sessions, 7, &token, NOW).expect("create");
    let result = validate_session(&mut sessions, &token, row.expires_at);
    assert!(result.is_ok());
    assert_eq!(sessions.len(), 1);
}

// Sign-out without a cookie is unauthenticated; signing out twice with
// the same cookie fails the second time with the same error, without
// escalation.
#[test]
fn sign_out_idempotence() {
    let (users, mut sessions) = stores_with_user("a@x.com", "Secret123", false);
    assert_eq!(sign_out(&mut sessions, None, NOW), Err(AuthError::Unauthenticated));

    let success =
        process_sign_in(&users, &mut sessions, &sign_in_data("a@x.com", "Secret123"), NOW)
            .expect("sign-in");
    assert_eq!(sign_out(&mut sessions, Some(&success.token), NOW), Ok(()));
    assert_eq!(
        sign_out(&mut sessions, Some(&success.token), NOW),
        Err(AuthError::Unauthenticated)
    );
    assert_eq!(sessions.len(), 0);
}

// Enumeration resistance: an unknown email and a wrong password yield
// the identical error and the identical message.
#[test]
fn enumeration_resistance() {
    let (users, mut sessions) = stores_with_user("a@x.com", "Secret123", false);
    let unknown_email =
        process_sign_in(&users, &mut sessions, &sign_in_data("b@x.com", "Secret123"), NOW)
            .expect_err("must fail");
    let wrong_password =
        process_sign_in(&users, &mut sessions, &sign_in_data("a@x.com", "WrongPass"), NOW)
            .expect_err("must fail");
    assert_eq!(unknown_email, wrong_password);
    assert_eq!(unknown_email.message(), wrong_password.message());
    assert_eq!(unknown_email, SignInError::IncorrectCredentials);
    assert_eq!(sessions.len(), 0);
}

// Admin check: a valid non-admin session fails it, a valid admin
// session passes it, and an invalid session fails both it and plain
// session lookup.
#[test]
fn admin_gate() {
    let mut users = UserStore::new();
    let admin_hash = hash_password("AdminPass1").expect("hash");
    let plain_hash = hash_password("PlainPass1").expect("hash");
    users.insert(NewUser { email: "admin@x.com", password: &admin_hash }, true).expect("insert");
    users.insert(NewUser { email: "plain@x.com", password: &plain_hash }, false).expect("insert");
    let mut sessions = SessionStore::new();

    let admin =
        process_sign_in(&users, &mut sessions, &sign_in_data("admin@x.com", "AdminPass1"), NOW)
            .expect("sign-in");
    assert!(admin.is_admin);
    let plain =
        process_sign_in(&users, &mut sessions, &sign_in_data("plain@x.com", "PlainPass1"), NOW)
            .expect("sign-in");
    assert!(!plain.is_admin);

    assert!(require_admin(&users, &mut sessions, Some(&admin.token), NOW).is_ok());
    assert_eq!(
        require_admin(&users, &mut sessions, Some(&plain.token), NOW),
        Err(AuthError::Unauthorized)
    );

    let bogus = "aaaaaaaaaaaaaaaaaaaaaaaaaaaaaaaa";
    assert_eq!(
        validate_session(&mut sessions, bogus, NOW),
        Err(AuthError::Unauthenticated)
    );
    assert_eq!(
        require_admin(&users, &mut sessions, Some(bogus), NOW),
        Err(AuthError::Unauthorized)
    );
    assert_eq!(
        require_admin(&users, &mut sessions, None, NOW),
        Err(AuthError::Unauthorized)
    );
}

// The full scenario: sign-up, sign-in, a wrong password, sign-out, and
// a replayed cookie.
#[test]
fn full_session_scenario() {
    let mut users = UserStore::new();
    let mut sessions = SessionStore::new();

    // Sign-up succeeds and stores a non-admin user whose hash is not
    // the plaintext.
    let sign_up_form = SignUpData {
        email: "a@x.com".to_string(),
        password: "Secret123".to_string(),
        password2: "Secret123".to_string(),
    };
    assert_eq!(process_sign_up(&mut users, &sign_up_form), Ok(()));
    assert_eq!(users.len(), 1);
    let idx = users.find_by_email("a@x.com").expect("user row");
    let user = users.get(idx);
    assert!(!user.is_admin);
    assert_ne!(user.password, "Secret123");

    // Sign-in with the same credentials: a cookie token comes back and
    // a session row with a thirty-day expiry exists.
    let success =
        process_sign_in(&users, &mut sessions, &sign_in_data("a@x.com", "Secret123"), NOW)
            .expect("sign-in");
    assert_eq!(sessions.len(), 1);
    let row = sessions.lookup(&token_digest(&success.token)).expect("session row");
    assert_eq!(row.0, user.id);
    assert_eq!(row.1, NOW + SESSION_LIFETIME_SECONDS);

    // A wrong password is rejected and creates no session row.
    let rejected =
        process_sign_in(&users, &mut sessions, &sign_in_data("a@x.com", "WrongPass"), NOW);
    assert_eq!(rejected.unwrap_err(), SignInError::IncorrectCredentials);
    assert_eq!(sessions.len(), 1);

    // Sign-out removes the row; the old cookie is unauthenticated.
    assert_eq!(sign_out(&mut sessions, Some(&success.token), NOW), Ok(()));
    assert_eq!(sessions.len(), 0);
    assert_eq!(
        validate_session(&mut sessions, &success.token, NOW),
        Err(AuthError::Unauthenticated)
    );
}

// Duplicate emails and mismatched passwords are refused with their own
// messages.
#[test]
fn sign_up_validation() {
    let mut users = UserStore::new();
    let form = SignUpData {
        email: "a@x.com".to_string(),
        password: "Secret123".to_string(),
        password2: "Secret124".to_string(),
    };
    assert_eq!(process_sign_up(&mut users, &form), Err(SignUpError::PasswordMismatch));
    assert_eq!(
        SignUpError::PasswordMismatch.message(),
        "ERROR: Your passwords do not match, please try again"
    );

    let good = SignUpData {
        email: "a@x.com".to_string(),
        password: "Secret123".to_string(),
        password2: "Secret123".to_string(),
    };
    assert_eq!(process_sign_up(&mut users, &good), Ok(()));
    let again = SignUpData {
        email: "a@x.com".to_string(),
        password: "Other456".to_string(),
        password2: "Other456".to_string(),
    };
    assert_eq!(process_sign_up(&mut users, &again), Err(SignUpError::EmailInUse));
    assert_eq!(
        SignUpError::EmailInUse.message(),
        "ERROR: Unable to create account, email is already in use"
    );
    assert_eq!(users.len(), 1);
}

// A sign-in attempt with an email nobody registered is rejected.
#[test]
fn login_wrong_username() {
    let (users, mut sessions) =
        stores_with_user("testemail@securecart.com", "mysecurepassword", false);
    let result = process_sign_in(
        &users,
        &mut sessions,
        &sign_in_data("randomemail", "randompassword"),
        NOW,
    );
    assert_eq!(result.unwrap_err(), SignInError::IncorrectCredentials);
}

// A sign-in attempt with the right email and a wrong password is
// rejected.
#[test]
fn login_wrong_password() {
    let (users, mut sessions) =
        stores_with_user("testemail@securecart.com", "mysecurepassword", false);
    let result = process_sign_in(
        &users,
        &mut sessions,
        &sign_in_data("testemail@securecart.com", "mywrongpassword"),
        NOW,
    );
    assert_eq!(result.unwrap_err(), SignInError::IncorrectCredentials);
}

// A sign-in attempt with the right credentials succeeds.
#[test]
fn login_correct() {
    let (users, mut sessions) =
        stores_with_user("testemail@securecart.com", "mysecurepassword", false);
    let result = process_sign_in(
        &users,
        &mut sessions,
        &sign_in_data("testemail@securecart.com", "mysecurepassword"),
        NOW,
    );
    assert!(result.is_ok());
}

// Signing in and then signing out with the received cookie both
// succeed.
#[test]
fn logout() {
    let (users, mut sessions) =
        stores_with_user("testemail@securecart.com", "mysecurepassword", false);
    let success = process_sign_in(
        &users,
        &mut sessions,
        &sign_in_data("testemail@securecart.com", "mysecurepassword"),
        NOW,
    )
    .expect("sign-in");
    assert_eq!(sign_out(&mut sessions, Some(&success.token), NOW), Ok(()));
}

// The error messages of the session layer.
#[test]
fn auth_error_messages() {
    assert_eq!(
        AuthError::Unauthenticated.message(),
        "401 Unauthorized, please try signing out and back in again"
    );
    assert_eq!(AuthError::Unauthorized.message(), "401 Unauthorized");
    assert_eq!(
        SignInError::IncorrectCredentials.message(),
        "Incorrect email or password, please try again"
    );
    assert_eq!(SignInError::Internal.message(), "Internal Server Error");
}

// An identifier collision on insert is surfaced, not swallowed.
#[test]
fn session_identifier_collision() {
    let mut sessions = SessionStore::new();
    let token = generate_session_token();
    create_session_with_token(&mut sessions, 1, &token, NOW).expect("create");
    let second = create_session_with_token(&mut sessions, 2, &token, NOW);
    assert_eq!(second.unwrap_err(), SessionError::IdentifierCollision);
    assert_eq!(sessions.len(), 1);
}

// Two sign-ins of the same user coexist: multi-device login.
#[test]
fn concurrent_sessions_coexist() {
    let (users, mut sessions) = stores_with_user("a@x.com", "Secret123", false);
    let first = process_sign_in(&users, &mut sessions, &sign_in_data("a@x.com", "Secret123"), NOW)
        .expect("sign-in");
    let second = process_sign_in(&users, &mut sessions, &sign_in_data("a@x.com", "Secret123"), NOW)
        .expect("sign-in");
    assert_ne!(first.token, second.token);
    assert_eq!(sessions.len(), 2);
    assert!(validate_session(&mut sessions, &first.token, NOW).is_ok());
    assert!(validate_session(&mut sessions, &second.token, NOW).is_ok());
}
