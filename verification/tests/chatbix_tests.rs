use chatbix::chatbix::{password_digest, Chatbix, StoredUser};
use chatbix::error::ChatError;
use chatbix::message::NewMessage;
use chatbix::tags::{logged_in, show_value};

fn submission(username: &str, tags: Option<i32>, auth_key: Option<String>) -> NewMessage {
    NewMessage {
        username: username.to_owned(),
        content: "hi".to_owned(),
        tags,
        color: None,
        channel: None,
        auth_key,
    }
}

#[test]
fn register_new_username_issues_token_and_digest() {
    let mut core = Chatbix::new();
    let out = core.register("ada", "secret", 0).unwrap();
    assert_eq!(out.auth_key.chars().count(), 16);
    assert_eq!(out.password_digest, password_digest("secret"));
    assert_eq!(out.password_digest.chars().count(), 64);
}

#[test]
fn register_existing_username_changes_nothing() {
    // A conflicting registration fails with UsernameInUse, issues no
    // token and leaves the session cache as it was.
    let mut core = Chatbix::new();
    let r = core.register("ada", "secret", 1);
    assert_eq!(r.unwrap_err(), ChatError::UsernameInUse);
    // No session was opened for the username.
    let probe = submission("ada", None, Some("0000000000000000".to_owned()));
    assert_eq!(core.new_message(&probe, 50).unwrap_err(), ChatError::NotLoggedIn);
}

#[test]
fn login_against_stored_row() {
    let mut core = Chatbix::new();
    let stored = StoredUser { password_digest: password_digest("secret"), admin: true };
    let key = core.login("ada", "secret", Some(stored)).unwrap();
    assert_eq!(key.chars().count(), 16);
    // The issued token deletes as admin.
    assert!(core.try_del("ada", &key, 1).is_ok());
}

#[test]
fn login_with_wrong_password_is_invalid_credentials() {
    let mut core = Chatbix::new();
    let stored = StoredUser { password_digest: password_digest("secret"), admin: false };
    let r = core.login("ada", "wrong", Some(stored));
    assert_eq!(r.unwrap_err(), ChatError::InvalidCredentials);
}

#[test]
fn login_with_unknown_username_is_invalid_credentials() {
    let mut core = Chatbix::new();
    let r = core.login("nobody", "secret", None);
    assert_eq!(r.unwrap_err(), ChatError::InvalidCredentials);
}

#[test]
fn digest_is_stable_and_password_dependent() {
    assert_eq!(password_digest("secret"), password_digest("secret"));
    assert_ne!(password_digest("secret"), password_digest("Secret"));
}

#[test]
fn digest_matches_the_published_sha512_vector() {
    // SHA-512 of the empty string, truncated to its first 64 hex digits.
    assert_eq!(
        password_digest(""),
        "cf83e1357eefb8bdf1542850d66d8007d620e4050b5715dc83f4a921d36ce9ce"
    );
}

#[test]
fn anonymous_submission_is_accepted_without_logged_in_bit() {
    let core = Chatbix::new();
    let p = core.new_message(&submission("ada", Some(0b1111), None), 77).unwrap();
    assert!(!logged_in(p.tags));
    // Client bits 1 to 3 pass through; bit 0 was discarded.
    assert_eq!(p.tags, 0b1110);
    assert_eq!(p.timestamp, 77);
    assert_eq!(p.username, "ada");
    assert_eq!(p.content, "hi");
}

#[test]
fn submission_with_reserved_high_bits_stores_them_as_zero() {
    // A suggested value carrying only bit 8 is reserved territory:
    // the stored row holds zero.
    let core = Chatbix::new();
    let p = core.new_message(&submission("ada", Some(256), None), 77).unwrap();
    assert_eq!(p.tags, 0);
    let p = core.new_message(&submission("ada", Some(0x3ff), None), 77).unwrap();
    assert_eq!(p.tags, 0xfe);
}

#[test]
fn authenticated_submission_carries_logged_in_bit() {
    // A valid token sets bit 0 even though the client's bit 0 was cleared.
    let mut core = Chatbix::new();
    let key = core.register("ada", "secret", 0).unwrap().auth_key;
    let p = core.new_message(&submission("ada", Some(0b1001_0000), Some(key)), 80).unwrap();
    assert!(logged_in(p.tags));
    assert_eq!(show_value(p.tags), 9);
    assert_eq!(p.tags, 0b1001_0001);
}

#[test]
fn submission_with_bad_token_is_rejected() {
    let mut core = Chatbix::new();
    let key = core.register("ada", "secret", 0).unwrap().auth_key;
    let mut wrong = key.clone();
    wrong.push('x');
    let r = core.new_message(&submission("ada", None, Some(wrong)), 80);
    assert_eq!(r.unwrap_err(), ChatError::InvalidAuthKey);
    let r = core.new_message(&submission("ghost", None, Some(key)), 80);
    assert_eq!(r.unwrap_err(), ChatError::NotLoggedIn);
}

#[test]
fn try_del_demands_an_admin_session() {
    let mut core = Chatbix::new();
    let user_key = core.register("ada", "secret", 0).unwrap().auth_key;
    assert_eq!(core.try_del("ada", &user_key, 3).unwrap_err(), ChatError::Forbidden);
    assert_eq!(core.try_del("ada", "0000000000000000", 3).unwrap_err(), ChatError::InvalidAuthKey);
    assert_eq!(core.try_del("ghost", "k", 3).unwrap_err(), ChatError::NotLoggedIn);
    let admin = StoredUser { password_digest: password_digest("pw"), admin: true };
    let admin_key = core.login("root", "pw", Some(admin)).unwrap();
    assert!(core.try_del("root", &admin_key, 3).is_ok());
}

#[test]
fn heartbeat_records_presence_and_login_state() {
    let mut core = Chatbix::new();
    let key = core.register("ada", "secret", 0).unwrap().auth_key;
    let online = core.heartbeat_mut("ada", Some(&key), true, 1000).unwrap();
    assert_eq!(online.len(), 1);
    assert_eq!(online[0].username, "ada");
    assert!(online[0].logged_in);
    // A bad token never fails the heartbeat; it reports not logged in.
    let online = core.heartbeat_mut("ada", Some("0000000000000000"), true, 1001).unwrap();
    assert_eq!(online.len(), 1);
    assert!(!online[0].logged_in);
    let online = core.heartbeat_mut("bob", None, false, 1002).unwrap();
    assert_eq!(online.len(), 2);
}

#[test]
fn sweep_expires_presence_through_the_core() {
    let mut core = Chatbix::new();
    core.heartbeat_mut("ada", None, true, 1000).unwrap();
    core.refresh_users(1029);
    assert_eq!(core.heartbeat().len(), 1);
    core.refresh_users(1030);
    assert_eq!(core.heartbeat().len(), 0);
}

#[test]
fn logout_through_the_core() {
    let mut core = Chatbix::new();
    let key = core.register("ada", "secret", 0).unwrap().auth_key;
    assert_eq!(core.logout("ada", "bad").unwrap_err(), ChatError::InvalidAuthKey);
    assert!(core.logout("ada", &key).is_ok());
    assert_eq!(core.logout("ada", &key).unwrap_err(), ChatError::NotLoggedIn);
}
