use ems_core::auth::{admin_of_claims, create_token, extract_admin_id, CredentialStore};
use ems_core::errors::EmsError;
use ems_core::models::{AdminLogin, AdminRegister};

const SECRET: &[u8] = b"test-signing-secret";

fn register_data(email: &str, password: &str) -> AdminRegister {
    AdminRegister { email: email.to_string(), password: password.to_string() }
}

fn login_data(email: &str, password: &str) -> AdminLogin {
    AdminLogin { email: email.to_string(), password: password.to_string() }
}

fn now() -> i64 {
    chrono::Utc::now().timestamp()
}

#[test]
fn register_issues_token_and_message() {
    let mut store = CredentialStore::new();
    let resp = store.register(&register_data("a@example.com", "pw1"), now(), SECRET).unwrap();
    assert_eq!(resp.message, "Admin registered successfully");
    assert!(!resp.token.is_empty());
    assert_eq!(store.admins.len(), 1);
    assert_eq!(store.admins[0].admin_id, 1);
    assert_eq!(store.admins[0].email, "a@example.com");
    assert_ne!(store.admins[0].password_hash, "pw1");
}

#[test]
fn register_duplicate_email_is_refused() {
    let mut store = CredentialStore::new();
    store.register(&register_data("a@example.com", "pw1"), now(), SECRET).unwrap();
    let r = store.register(&register_data("a@example.com", "pw2"), now(), SECRET);
    assert_eq!(r.err(), Some(EmsError::DuplicateAccount));
    assert_eq!(
        EmsError::DuplicateAccount.message(),
        "Admin with this email already exists"
    );
    assert_eq!(store.admins.len(), 1);
}

#[test]
fn login_roundtrip_token_identifies_the_admin() {
    let mut store = CredentialStore::new();
    store.register(&register_data("a@example.com", "pw1"), now(), SECRET).unwrap();
    store.register(&register_data("b@example.com", "pw2"), now(), SECRET).unwrap();
    let resp = store.login(&login_data("b@example.com", "pw2"), now(), SECRET).unwrap();
    assert_eq!(resp.message, "Login successful");
    let header = format!("Bearer {}", resp.token);
    assert_eq!(extract_admin_id(Some(header.as_str()), SECRET), Ok(2));
}

#[test]
fn login_wrong_password_and_unknown_email_are_indistinguishable() {
    let mut store = CredentialStore::new();
    store.register(&register_data("known@example.com", "right"), now(), SECRET).unwrap();
    let wrong_password = store.login(&login_data("known@example.com", "wrong"), now(), SECRET);
    let unknown_email = store.login(&login_data("nobody@example.com", "right"), now(), SECRET);
    let e1 = wrong_password.err().unwrap();
    let e2 = unknown_email.err().unwrap();
    assert_eq!(e1, EmsError::InvalidCredentials);
    assert_eq!(e1, e2);
    assert_eq!(e1.message(), e2.message());
    assert_eq!(e1.message(), "Invalid email or password");
}

#[test]
fn extract_without_header_is_unauthorized() {
    assert_eq!(extract_admin_id(None, SECRET), Err(EmsError::Unauthorized));
}

#[test]
fn extract_with_wrong_scheme_is_unauthorized() {
    assert_eq!(
        extract_admin_id(Some("Basic dXNlcjpwdw=="), SECRET),
        Err(EmsError::Unauthorized)
    );
    assert_eq!(extract_admin_id(Some("Bear"), SECRET), Err(EmsError::Unauthorized));
}

#[test]
fn extract_with_garbage_token_is_unauthorized() {
    assert_eq!(
        extract_admin_id(Some("Bearer not.a.token"), SECRET),
        Err(EmsError::Unauthorized)
    );
}

#[test]
fn extract_with_wrong_secret_is_unauthorized() {
    let token = create_token(4, "a@example.com", now(), SECRET).unwrap();
    let header = format!("Bearer {}", token);
    assert_eq!(
        extract_admin_id(Some(header.as_str()), b"another-secret"),
        Err(EmsError::Unauthorized)
    );
    assert_eq!(extract_admin_id(Some(header.as_str()), SECRET), Ok(4));
}

#[test]
fn expired_token_is_unauthorized() {
    // Issued far enough in the past that the 24-hour lifetime and the
    // validator's leeway are both long gone.
    let token = create_token(4, "a@example.com", now() - 10 * 86400, SECRET).unwrap();
    let header = format!("Bearer {}", token);
    assert_eq!(
        extract_admin_id(Some(header.as_str()), SECRET),
        Err(EmsError::Unauthorized)
    );
}

#[test]
fn admin_of_claims_accepts_only_ids_in_range() {
    assert_eq!(admin_of_claims(Some(12)), Ok(12));
    assert_eq!(admin_of_claims(None), Err(EmsError::Unauthorized));
    assert_eq!(admin_of_claims(Some(i64::MAX)), Err(EmsError::Unauthorized));
}
