use backend::auth::jwt::login_claims;
use backend::auth::{
    bearer_jwt, hash_str_to_hex, login, quad_to_char, to_hex, user_from_auth_header,
    user_from_form_value, UserID, UserLogin,
};
use backend::database::{DBUser, UserRoll};
use backend::token_validizer::ActiveTokenStorage;

const SHA3_EMPTY: &str = "a7ffc6f8bf1ed76651c14756a061d662f580ff4de43b49fa82d80a4b80f8434a";

#[test]
fn auth_test_to_hex() {
    assert_eq!(to_hex(&[0x00, 0x0f, 0xa5, 0xff]), "000fa5ff");
    assert_eq!(quad_to_char(9), '9');
    assert_eq!(quad_to_char(10), 'a');
    assert_eq!(quad_to_char(15), 'f');
}

#[test]
fn mod_test_to_hex() {
    assert_eq!(hash_str_to_hex(""), SHA3_EMPTY);
    assert_eq!(hash_str_to_hex("abc").len(), 64);
}

#[test]
fn hash_of_known_text() {
    assert_eq!(
        hash_str_to_hex("abc"),
        "3a985da74fe225b2045c172d6bd390bd855f086e3e9d525b46bfe24511431532"
    );
}

#[test]
fn debug_access_id() {
    assert_eq!(UserID::debug_access().0, "DEBUG_ID");
    assert_eq!(UserID::debug_access().to_display_string(), "UserId:DEBUG_ID");
}

#[test]
fn user_id_needs_eight_bytes() {
    assert!(UserID::try_from("abcdefgh".to_string()).is_ok());
    assert!(UserID::try_from("abcdefg".to_string()).is_err());
    assert!(UserID::try_from("abcdefghi".to_string()).is_err());
}

fn user(pw: &str) -> DBUser {
    DBUser {
        name: "alice".to_string(),
        id: UserID("alice001".to_string()),
        hashed_pw: hash_str_to_hex(pw),
        roll: UserRoll::User,
    }
}

#[test]
fn token_login_issues_working_token() {
    let mut storage = ActiveTokenStorage::empty();
    let data = UserLogin { name: "alice".to_string(), password_base64: "c2VjcmV0".to_string() };
    let resp = login(&mut storage, data, Some(user("c2VjcmV0"))).unwrap();
    assert_eq!(resp.name, "alice");
    assert_eq!(resp.user_id, UserID("alice001".to_string()));
    assert!(resp.profile_picture_url.is_none());
    assert_eq!(resp.auth_token.len(), 16);
    assert!(resp.auth_token.chars().all(|c| c.is_ascii_alphanumeric()));
    let header = format!("Bearer {}", resp.auth_token);
    assert_eq!(
        user_from_auth_header(&storage, Some(&header)),
        Some(UserID("alice001".to_string()))
    );
    assert_eq!(
        user_from_form_value(&storage, &resp.auth_token),
        Some(UserID("alice001".to_string()))
    );
    assert_eq!(storage.inner().len(), 1);
}

#[test]
fn token_login_with_wrong_password_fails() {
    let mut storage = ActiveTokenStorage::empty();
    let data = UserLogin { name: "alice".to_string(), password_base64: "d3Jvbmc=".to_string() };
    let resp = login(&mut storage, data, Some(user("c2VjcmV0")));
    assert_eq!(resp.err(), Some("Username or password unknown"));
    assert_eq!(storage.inner().len(), 0);
}

#[test]
fn token_login_of_unknown_user_fails() {
    let mut storage = ActiveTokenStorage::empty();
    let data = UserLogin { name: "bob".to_string(), password_base64: "eA==".to_string() };
    assert_eq!(login(&mut storage, data, None).err(), Some("Username or password unknown"));
}

#[test]
fn auth_header_needs_bearer_and_length() {
    let storage = ActiveTokenStorage::with_debug_access_token();
    assert_eq!(
        user_from_auth_header(&storage, Some("Bearer 0123456789abcdef")),
        Some(UserID::debug_access())
    );
    assert_eq!(user_from_auth_header(&storage, Some("bearer 0123456789abcdef")), None);
    assert_eq!(user_from_auth_header(&storage, Some("Bearer 0123456789abcde")), None);
    assert_eq!(user_from_auth_header(&storage, Some("Bearer 0123456789abcdeg")), None);
    assert_eq!(user_from_auth_header(&storage, None), None);
}

#[test]
fn bearer_jwt_strips_prefix() {
    assert_eq!(bearer_jwt("Bearer a.b.c"), Some("a.b.c".to_string()));
    assert_eq!(bearer_jwt("Basic abc"), None);
    assert_eq!(bearer_jwt("Bear"), None);
}

#[test]
fn jwt_login_claims() {
    let ok = login_claims(
        UserLogin { name: "alice".to_string(), password_base64: "c2VjcmV0".to_string() },
        Some(user("c2VjcmV0")),
    )
    .unwrap();
    assert_eq!(ok.user_name, "alice");
    assert_eq!(ok.user_id, UserID("alice001".to_string()));
    assert_eq!(ok.user_roll, UserRoll::User);
    assert!(ok.profile_picture_url.is_none());
    let bad = login_claims(UserLogin { name: "alice".to_string(), password_base64: "x".to_string() }, Some(user("c2VjcmV0")));
    assert_eq!(bad.err(), Some("Username or password unknown"));
    assert!(login_claims(UserLogin { name: "n".to_string(), password_base64: "x".to_string() }, None).is_err());
}
