use chatbix::error::ChatError;
use chatbix::routes::{
    active_param, heartbeat_interval, query_interval, split_channels, str_eq, wrap_error_json,
    JsonSuccess,
};
use chatbix::selector::Interval;

#[test]
fn split_channels_cases() {
    assert_eq!(split_channels("dev,ops"), vec!["dev".to_owned(), "ops".to_owned()]);
    assert_eq!(split_channels("dev"), vec!["dev".to_owned()]);
    assert_eq!(split_channels(""), vec!["".to_owned()]);
    assert_eq!(split_channels("a,,b"), vec!["a".to_owned(), "".to_owned(), "b".to_owned()]);
    assert_eq!(split_channels(",x,"), vec!["".to_owned(), "x".to_owned(), "".to_owned()]);
}

#[test]
fn active_param_reads_refusals_only() {
    assert!(!active_param("false"));
    assert!(!active_param("FALSE"));
    assert!(!active_param("0"));
    assert!(active_param("true"));
    assert!(active_param("False"));
    assert!(active_param(""));
    assert!(active_param("1"));
}

#[test]
fn str_eq_compares_contents() {
    assert!(str_eq("abc", "abc"));
    assert!(!str_eq("abc", "abd"));
    assert!(!str_eq("abc", "abcd"));
    assert!(str_eq("", ""));
}

#[test]
fn heartbeat_interval_precedence() {
    assert_eq!(heartbeat_interval(None, None), Ok(Interval::Last(150)));
    assert_eq!(heartbeat_interval(Some("100"), None), Ok(Interval::AllFromTimestamp(100)));
    // The id cursor wins over a timestamp.
    assert_eq!(heartbeat_interval(Some("100"), Some("5")), Ok(Interval::AllFromId(5)));
    assert_eq!(heartbeat_interval(None, Some("5")), Ok(Interval::AllFromId(5)));
    assert_eq!(heartbeat_interval(Some("junk"), None), Err(ChatError::MalformedInput));
    assert_eq!(heartbeat_interval(None, Some("junk")), Err(ChatError::MalformedInput));
}

#[test]
fn query_interval_precedence() {
    assert_eq!(query_interval(None, None, None), Ok(Interval::Last(150)));
    assert_eq!(query_interval(None, Some("10"), None), Ok(Interval::AllFromTimestamp(10)));
    assert_eq!(
        query_interval(None, Some("10"), Some("20")),
        Ok(Interval::FromToTimestamp(10, 20))
    );
    assert_eq!(query_interval(Some("7"), Some("10"), Some("20")), Ok(Interval::AllFromId(7)));
    // A lone end bound falls back to the default window.
    assert_eq!(query_interval(None, None, Some("20")), Ok(Interval::Last(150)));
    assert_eq!(query_interval(Some("x"), None, None), Err(ChatError::MalformedInput));
    assert_eq!(query_interval(None, Some("x"), Some("20")), Err(ChatError::MalformedInput));
    assert_eq!(query_interval(None, Some("10"), Some("x")), Err(ChatError::MalformedInput));
}

#[test]
fn query_interval_accepts_calendar_timestamps() {
    assert_eq!(
        query_interval(None, Some("1970-01-01T00:00:10"), None),
        Ok(Interval::AllFromTimestamp(10))
    );
}

#[test]
fn wrap_error_json_frames_the_text() {
    assert_eq!(wrap_error_json("boom"), "{\"error\":\"boom\"}");
    assert_eq!(wrap_error_json(""), "{\"error\":\"\"}");
}

#[test]
fn success_shells() {
    let e = JsonSuccess::empty();
    assert_eq!(e.status, "success");
    assert!(e.messages.is_none() && e.users_connected.is_none() && e.auth_key.is_none());
    let k = JsonSuccess::with_auth_key("k123".to_owned());
    assert_eq!(k.auth_key.as_deref(), Some("k123"));
    let m = JsonSuccess::with_messages(Vec::new());
    assert!(m.messages.is_some() && m.users_connected.is_none());
    let mc = JsonSuccess::with_messages_and_connected(Vec::new(), Vec::new());
    assert!(mc.messages.is_some() && mc.users_connected.is_some());
}

#[test]
fn error_responses_carry_the_agreed_text_and_status() {
    let cases = [
        (ChatError::InvalidCredentials, "invalid username or password", 422u16),
        (ChatError::InvalidAuthKey, "invalid auth_key", 401),
        (ChatError::UsernameInUse, "username already taken", 409),
        (ChatError::Forbidden, "insufficient rights", 403),
        (ChatError::NotLoggedIn, "not logged in", 401),
        (ChatError::NoJsonBodyDetected, "no json body detected", 400),
        (ChatError::MalformedInput, "invalid timestamp or id", 422),
    ];
    for (e, text, status) in cases {
        let (t, s) = e.response_parts().unwrap();
        assert_eq!(t, text);
        assert_eq!(s, status);
    }
    assert!(ChatError::DatabaseBusy.response_parts().is_none());
}

#[test]
fn json_error_shell() {
    let j = chatbix::error::JsonError::new("oops".to_owned());
    assert_eq!(j.status, "error");
    assert_eq!(j.error, "oops");
}
