use auth_core::AuthError;
use auth_core::Login;
use auth_core::Session;
use auth_core::Signup;
use auth_core::Users;

fn signup_form(email: &str, password: &str) -> Signup {
    Signup { email: email.to_string(), password: password.to_string() }
}

fn login_form(email: &str, password: &str) -> Login {
    Login { email: email.to_string(), password: password.to_string() }
}

#[test]
fn signup_then_login_succeeds() {
    let mut users = Users::new();
    assert_eq!(users.signup(&signup_form("a@x.com", "secret123")), Ok(()));
    let key = users.login(&login_form("a@x.com", "secret123")).unwrap();
    assert!(!key.is_empty());
    assert_eq!(key.chars().count(), 15);
}

#[test]
fn duplicate_signup_returns_email_already_exists() {
    let mut users = Users::new();
    assert_eq!(users.signup(&signup_form("a@x.com", "pw1")), Ok(()));
    let before = users.conn.len();
    assert_eq!(users.signup(&signup_form("a@x.com", "pw2")), Err(AuthError::EmailAlreadyExists));
    assert_eq!(users.conn.len(), before);
}

#[test]
fn second_signup_keeps_first_password() {
    let mut users = Users::new();
    assert_eq!(users.signup(&signup_form("a@x.com", "pw1")), Ok(()));
    assert_eq!(users.signup(&signup_form("a@x.com", "pw2")), Err(AuthError::EmailAlreadyExists));
    assert_eq!(users.conn.len(), 1);
    assert!(users.login(&login_form("a@x.com", "pw1")).is_ok());
    assert_eq!(users.login(&login_form("a@x.com", "pw2")), Err(AuthError::UnauthorizedError));
}

#[test]
fn login_with_wrong_password_is_unauthorized() {
    let mut users = Users::new();
    assert_eq!(users.signup(&signup_form("a@x.com", "secret123")), Ok(()));
    assert_eq!(users.login(&login_form("a@x.com", "wrongpass")), Err(AuthError::UnauthorizedError));
}

#[test]
fn login_with_unknown_email_is_email_does_not_exist() {
    let mut users = Users::new();
    assert_eq!(users.signup(&signup_form("a@x.com", "secret123")), Ok(()));
    assert_eq!(
        users.login(&login_form("b@x.com", "secret123")),
        Err(AuthError::EmailDoesNotExist)
    );
}

#[test]
fn signup_rejects_email_without_at_sign() {
    let mut users = Users::new();
    assert_eq!(users.signup(&signup_form("nodomain", "secret123")), Err(AuthError::ValidationError));
    assert_eq!(users.conn.len(), 0);
}

#[test]
fn signup_rejects_empty_password() {
    let mut users = Users::new();
    assert_eq!(users.signup(&signup_form("a@x.com", "")), Err(AuthError::ValidationError));
    assert_eq!(users.conn.len(), 0);
}

#[test]
fn session_lifecycle_scenario() {
    let mut users = Users::new();
    assert_eq!(users.signup(&signup_form("a@x.com", "secret123")), Ok(()));
    let key = users.login(&login_form("a@x.com", "secret123")).unwrap();
    let user = users.conn.get_by_email(&"a@x.com".to_string()).unwrap();
    assert_eq!(users.sess.get(&key, 0), Some(user.id));
    let session = Session { id: user.id, auth_key: key };
    assert_eq!(users.logout(&session, 0), Ok(()));
    assert_eq!(users.sess.get(&session.auth_key, 0), None);
}

#[test]
fn logout_twice_never_errors() {
    let mut users = Users::new();
    assert_eq!(users.signup(&signup_form("a@x.com", "secret123")), Ok(()));
    let key = users.login(&login_form("a@x.com", "secret123")).unwrap();
    let user = users.conn.get_by_email(&"a@x.com".to_string()).unwrap();
    let session = Session { id: user.id, auth_key: key };
    assert_eq!(users.logout(&session, 5), Ok(()));
    assert_eq!(users.logout(&session, 5), Ok(()));
}

#[test]
fn is_auth_tracks_key_and_id() {
    let mut users = Users::new();
    assert_eq!(users.signup(&signup_form("a@x.com", "secret123")), Ok(()));
    let key = users.login(&login_form("a@x.com", "secret123")).unwrap();
    let user = users.conn.get_by_email(&"a@x.com".to_string()).unwrap();
    let good = Session { id: user.id, auth_key: key.clone() };
    assert!(users.is_auth(&good, 0));
    let wrong_id = Session { id: user.id + 1, auth_key: key };
    assert!(!users.is_auth(&wrong_id, 0));
    let wrong_key = Session { id: user.id, auth_key: "nosuchkey".to_string() };
    assert!(!users.is_auth(&wrong_key, 0));
}

#[test]
fn login_for_issues_expiring_key() {
    let mut users = Users::new();
    assert_eq!(users.signup(&signup_form("a@x.com", "secret123")), Ok(()));
    let key = users.login_for(&login_form("a@x.com", "secret123"), 60, 1000).unwrap();
    assert_eq!(key.chars().count(), 10);
    let user = users.conn.get_by_email(&"a@x.com".to_string()).unwrap();
    assert_eq!(users.sess.get(&key, 1059), Some(user.id));
    assert_eq!(users.sess.get(&key, 1060), None);
}

#[test]
fn login_for_unknown_email_propagates_not_found() {
    let mut users = Users::new();
    assert_eq!(
        users.login_for(&login_form("b@x.com", "secret123"), 60, 1000),
        Err(AuthError::NotFound)
    );
}

#[test]
fn login_for_wrong_password_is_unauthorized() {
    let mut users = Users::new();
    assert_eq!(users.signup(&signup_form("a@x.com", "secret123")), Ok(()));
    assert_eq!(
        users.login_for(&login_form("a@x.com", "wrongpass"), 60, 1000),
        Err(AuthError::UnauthorizedError)
    );
}

#[test]
fn external_signup_creates_confirmed_account() {
    let mut users = Users::new();
    assert_eq!(users.signup_external(&"e@y.com".to_string()), Ok(()));
    let user = users.conn.get_by_email(&"e@y.com".to_string()).unwrap();
    assert!(user.is_confirmed);
    assert!(!user.is_admin);
    assert_eq!(
        users.signup_external(&"e@y.com".to_string()),
        Err(AuthError::EmailAlreadyExists)
    );
}

#[test]
fn external_login_skips_password_check() {
    let mut users = Users::new();
    assert_eq!(users.signup_external(&"e@y.com".to_string()), Ok(()));
    let key = users.login_external(&"e@y.com".to_string()).unwrap();
    assert_eq!(key.chars().count(), 15);
    let user = users.conn.get_by_email(&"e@y.com".to_string()).unwrap();
    assert_eq!(users.sess.get(&key, 0), Some(user.id));
    assert_eq!(
        users.login_external(&"absent@y.com".to_string()),
        Err(AuthError::EmailDoesNotExist)
    );
}

#[test]
fn external_account_password_is_not_guessable() {
    let mut users = Users::new();
    assert_eq!(users.signup_external(&"e@y.com".to_string()), Ok(()));
    assert_eq!(
        users.login(&login_form("e@y.com", "password")),
        Err(AuthError::UnauthorizedError)
    );
}

#[test]
fn delete_removes_account_and_session() {
    let mut users = Users::new();
    assert_eq!(users.signup(&signup_form("a@x.com", "secret123")), Ok(()));
    let key = users.login(&login_form("a@x.com", "secret123")).unwrap();
    let user = users.conn.get_by_email(&"a@x.com".to_string()).unwrap();
    let session = Session { id: user.id, auth_key: key };
    assert_eq!(users.delete(&session), Ok(()));
    assert_eq!(users.conn.len(), 0);
    assert_eq!(users.sess.get(&session.auth_key, 0), None);
    assert_eq!(
        users.login(&login_form("a@x.com", "secret123")),
        Err(AuthError::EmailDoesNotExist)
    );
}

#[test]
fn delete_after_direct_removal_returns_not_found() {
    let mut users = Users::new();
    assert_eq!(users.signup(&signup_form("a@x.com", "secret123")), Ok(()));
    let key = users.login(&login_form("a@x.com", "secret123")).unwrap();
    let user = users.conn.get_by_email(&"a@x.com".to_string()).unwrap();
    assert_eq!(users.conn.delete(user.id), Ok(()));
    let session = Session { id: user.id, auth_key: key };
    assert_eq!(users.delete(&session), Err(AuthError::NotFound));
}

#[test]
fn delete_invalidates_every_session_of_the_user() {
    let mut users = Users::new();
    assert_eq!(users.signup(&signup_form("a@x.com", "secret123")), Ok(()));
    let key1 = users.login(&login_form("a@x.com", "secret123")).unwrap();
    let key2 = users.login(&login_form("a@x.com", "secret123")).unwrap();
    let user = users.conn.get_by_email(&"a@x.com".to_string()).unwrap();
    let session = Session { id: user.id, auth_key: key1 };
    assert_eq!(users.delete(&session), Ok(()));
    assert_eq!(users.sess.get(&session.auth_key, 0), None);
    assert_eq!(users.sess.get(&key2, 0), None);
}
