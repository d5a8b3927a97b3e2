use stump::session::{
    delete_cookie_header, saved_session_user, session_expiry, session_is_expired, session_is_live,
    touch_expiry_plan, SessionError, SessionStoreError, SESSION_NAME, SESSION_PATH,
    SESSION_USER_KEY, SLIDE_THROTTLE_SECS,
};

#[test]
fn delete_cookie_header_expires_the_session_cookie() {
    let (name, value) = delete_cookie_header();
    assert_eq!(name, "Set-Cookie");
    assert_eq!(
        value,
        "stump_session=; HttpOnly; SameSite=Lax; Path=/; Domain=; Expires=Thu, 01 Jan 1970 00:00:00 GMT; Max-Age=0"
    );
    assert_eq!(SESSION_NAME, "stump_session");
    assert_eq!(SESSION_PATH, "/");
    assert_eq!(SESSION_USER_KEY, "user_id");
}

#[test]
fn saved_session_expires_after_its_lifetime() {
    assert_eq!(session_expiry(1_000, 86_400), 87_400);
}

#[test]
fn live_and_expired_sessions() {
    assert!(session_is_live(101, 100));
    assert!(!session_is_live(100, 100));
    assert!(session_is_expired(99, 100));
    assert!(!session_is_expired(100, 100));
}

#[test]
fn touch_slides_a_live_session_forward() {
    let now = 10_000;
    let ttl = 7 * 24 * 3600;
    let touch = touch_expiry_plan(now, ttl);
    assert_eq!(touch.new_expiry, now + ttl);
    assert_eq!(touch.throttle_before, now + ttl - SLIDE_THROTTLE_SECS);
    // a session last touched two hours ago is moved
    assert!(touch.applies_to(now + ttl - 2 * 3600));
}

#[test]
fn touch_never_resurrects_an_expired_session() {
    let touch = touch_expiry_plan(10_000, 86_400);
    assert!(!touch.applies_to(10_000));
    assert!(!touch.applies_to(9_000));
}

#[test]
fn touch_is_throttled_to_once_per_hour() {
    let ttl = 86_400;
    let first = touch_expiry_plan(10_000, ttl);
    let expiry = first.new_expiry;
    let soon = touch_expiry_plan(10_000 + 1_800, ttl);
    assert!(!soon.applies_to(expiry));
    let at_the_hour = touch_expiry_plan(10_000 + 3_600, ttl);
    assert!(!at_the_hour.applies_to(expiry));
    let later = touch_expiry_plan(10_000 + 3_601, ttl);
    assert!(later.applies_to(expiry));
}

#[test]
fn session_error_messages_and_store_errors() {
    assert_eq!(SessionError::NotFound.message(), "Session not found");
    assert_eq!(SessionError::DecodeFailed.message(), "Failed to decode session data");
    assert_eq!(
        SessionError::SerdeError("eof".to_string()).message(),
        "An error occurred while serializing or deserializing session data: eof"
    );
    assert_eq!(SessionError::DbError("locked".to_string()).message(), "locked");
    match SessionError::NotFound.into_store_error() {
        SessionStoreError::Backend(m) => assert_eq!(m, "Session not found"),
        _ => panic!("a missing session is a backend error"),
    }
    match SessionError::DbError("locked".to_string()).into_store_error() {
        SessionStoreError::Backend(m) => assert_eq!(m, "locked"),
        _ => panic!("a database error is a backend error"),
    }
    match SessionError::SerdeError("eof".to_string()).into_store_error() {
        SessionStoreError::Decode(m) => assert_eq!(m, "eof"),
        _ => panic!("a serde error is a decode error"),
    }
    match SessionError::DecodeFailed.into_store_error() {
        SessionStoreError::Decode(m) => assert_eq!(m, "Failed to decode session data"),
        _ => panic!("a decode failure is a decode error"),
    }
}

#[test]
fn a_session_is_saved_only_with_a_user() {
    assert_eq!(saved_session_user(Some("u1".to_string())).ok(), Some("u1".to_string()));
    assert!(matches!(saved_session_user(None), Err(SessionError::NotFound)));
}
