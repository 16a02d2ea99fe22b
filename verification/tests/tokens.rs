use backend::auth::{logout, user_from_form_value, UserID};
use backend::fs::shared::{
    may_share_path, normalize_upload_limit, random_share_id, share_id_search_step, share_write, IdCheck, SearchStep,
    SharedID, ShareUpdate, SHARE_ID_ATTEMPTS,
};
use backend::token_validizer::{key_of, ActiveTokenStorage};
use backend::utils::{get_rand_token, token_from_draws};

/// Drawing with `nth(draw % 100)` on an endless cycle of the alphabet.
fn reference_token(draws: &[usize]) -> Vec<u8> {
    let mut chars = ('a'..='z').chain('A'..='Z').chain('0'..='9').cycle();
    draws.iter().map(|d| chars.nth(d % 100).unwrap() as u8).collect()
}

#[test]
fn tokens_from_draws_follow_the_cycling_alphabet() {
    let draws: [usize; 6] = [0, 0, 25, 99, 1000003, usize::MAX];
    assert_eq!(token_from_draws(&draws).to_vec(), reference_token(&draws));
    let zeros = [0usize; 4];
    assert_eq!(&token_from_draws(&zeros), b"abcd");
}

#[test]
fn random_tokens_use_letters_and_digits() {
    let t: [u8; 16] = get_rand_token::<16>();
    assert!(t.iter().all(|b| b.is_ascii_alphanumeric()));
    let id = random_share_id();
    assert_eq!(id.len(), 16);
    assert!(id.chars().all(|c| c.is_ascii_alphanumeric()));
}

#[test]
fn token_keys_are_big_endian_numbers() {
    let mut t = [0u8; 16];
    t[15] = 1;
    assert_eq!(key_of(&t), 1);
    t[14] = 2;
    assert_eq!(key_of(&t), 2 * 256 + 1);
    assert_eq!(key_of(b"0123456789abcdef"), u128::from_be_bytes(*b"0123456789abcdef"));
}

#[test]
fn issued_tokens_are_found_again() {
    let mut storage = ActiveTokenStorage::empty();
    let tok = storage.new_user_token(UserID("user0001".to_string()));
    let (_, user) = storage.get_user_data(&tok).unwrap();
    assert_eq!(user, UserID("user0001".to_string()));
    assert!(storage.get_user_data(&tok[..15]).is_none());
    assert_eq!(storage.inner().len(), 1);
}

#[test]
fn debug_token_store() {
    let storage = ActiveTokenStorage::with_debug_access_token();
    assert_eq!(storage.inner().len(), 1);
    assert_eq!(storage.get_user_data(b"0123456789abcdef").unwrap().1, UserID::debug_access());
    assert!(storage.get_user_data(b"0123456789abcdeg").is_none());
}

#[test]
fn logout_removes_only_that_users_tokens() {
    let mut storage = ActiveTokenStorage::with_debug_access_token();
    let a = UserID("aaaaaaaa".to_string());
    let b = UserID("bbbbbbbb".to_string());
    let ta1 = storage.new_user_token(a.clone());
    let ta2 = storage.new_user_token(a.clone());
    let tb = storage.new_user_token(b.clone());
    let text = |t: &[u8; 16]| String::from_utf8(t.to_vec()).unwrap();
    logout(&mut storage, a.clone());
    assert_eq!(user_from_form_value(&storage, &text(&ta1)), None);
    assert_eq!(user_from_form_value(&storage, &text(&ta2)), None);
    assert_eq!(user_from_form_value(&storage, &text(&tb)), Some(b.clone()));
    assert_eq!(user_from_form_value(&storage, "0123456789abcdef"), Some(UserID::debug_access()));
    storage.remove_user(&UserID::debug_access());
    assert_eq!(user_from_form_value(&storage, "0123456789abcdef"), None);
    assert_eq!(storage.inner().len(), 1);
}

#[test]
fn share_ids_and_writes() {
    assert!(may_share_path(true));
    assert!(!may_share_path(false));
    assert_eq!(normalize_upload_limit(Some(0)), None);
    assert_eq!(normalize_upload_limit(Some(5)), Some(5));
    assert_eq!(normalize_upload_limit(None), None);
    assert_eq!(SharedID::from_string_unchecked("abc".to_string()).as_str(), "abc");
    assert_eq!(SharedID::from_string_checked("abc".to_string(), true).unwrap().as_str(), "abc");
    assert!(SharedID::from_string_checked("abc".to_string(), false).is_none());
    match share_id_search_step(1, "cand".to_string(), IdCheck::Free) {
        SearchStep::Found(id) => assert_eq!(id.as_str(), "cand"),
        other => panic!("unexpected {:?}", other),
    }
    assert!(matches!(share_id_search_step(1, "c".to_string(), IdCheck::Failed), SearchStep::GiveUp));
    match share_id_search_step(1, "c".to_string(), IdCheck::Taken) {
        SearchStep::TryCandidate(c) => assert_eq!(c.len(), 16),
        other => panic!("unexpected {:?}", other),
    }
    assert!(matches!(share_id_search_step(SHARE_ID_ATTEMPTS, "c".to_string(), IdCheck::Taken), SearchStep::GiveUp));
    let owner = UserID("user0001".to_string());
    match share_write(&owner, "docs", Some(SharedID::from_string_unchecked("id".to_string())), Some(0)) {
        ShareUpdate::Store(id, limit) => {
            assert_eq!(id.as_str(), "id");
            assert_eq!(limit, None);
        }
        ShareUpdate::Delete(..) => panic!("expected a store"),
    }
    match share_write(&owner, "docs", None, Some(3)) {
        ShareUpdate::Delete(user, path) => {
            assert_eq!(user, owner);
            assert_eq!(path, "docs");
        }
        ShareUpdate::Store(..) => panic!("expected a delete"),
    }
}
