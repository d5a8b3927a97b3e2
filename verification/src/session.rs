//! Session cookie and sliding-expiry arithmetic.
use vstd::prelude::*;
use vstd::string::*;

verus! {

/// The session data key under which the user id is stored.
pub const SESSION_USER_KEY: &'static str = "user_id";
/// The name of the session cookie.
pub const SESSION_NAME: &'static str = "stump_session";
/// The path the session cookie is scoped to.
pub const SESSION_PATH: &'static str = "/";

/// The value of the `Set-Cookie` header which makes a client forget its session
/// cookie: same name, path and domain, with an expiry in the past.
pub open spec fn spec_delete_cookie_value() -> Seq<char> {
    SESSION_NAME@ + "="@ + ""@ + "; HttpOnly; SameSite=Lax; Path="@ + SESSION_PATH@ + "; Domain="@
        + ""@ + "; Expires="@ + "Thu, 01 Jan 1970 00:00:00 GMT"@ + "; Max-Age=0"@
}

/// Returns a tuple with the Set-Cookie header name and value to delete the session cookie.
pub fn delete_cookie_header() -> (r: (String, String))
    ensures
        r.0@ == "Set-Cookie"@,
        r.1@ == spec_delete_cookie_value(),
{
    let name = String::from_str("Set-Cookie");
    let mut value = String::from_str(SESSION_NAME);
    value.append("=");
    value.append("");
    value.append("; HttpOnly; SameSite=Lax; Path=");
    value.append(SESSION_PATH);
    value.append("; Domain=");
    value.append("");
    value.append("; Expires=");
    value.append("Thu, 01 Jan 1970 00:00:00 GMT");
    value.append("; Max-Age=0");
    (name, value)
}


/// A session's expiry is slid forward at most once per this many seconds.
pub const SLIDE_THROTTLE_SECS: i64 = 3600;

/// The expiry of a session saved at `now` (Unix seconds) with a lifetime of
/// `ttl` seconds.
pub fn session_expiry(now: i64, ttl: i64) -> (r: i64)
    requires
        i64::MIN <= now + ttl <= i64::MAX,
    ensures
        r == now + ttl,
{
    now + ttl
}

/// A session row is served while its expiry lies strictly in the future.
pub open spec fn is_live_spec(expiry: int, now: int) -> bool {
    expiry > now
}

/// A session row is deleted once its expiry lies strictly in the past.
pub open spec fn is_expired_spec(expiry: int, now: int) -> bool {
    expiry < now
}

/// Whether a session with this expiry is loaded at `now`.
pub fn session_is_live(expiry: i64, now: i64) -> (r: bool)
    ensures
        r == is_live_spec(expiry as int, now as int),
{
    expiry > now
}

/// Whether a session with this expiry is removed by the expiry sweep at `now`.
pub fn session_is_expired(expiry: i64, now: i64) -> (r: bool)
    ensures
        r == is_expired_spec(expiry as int, now as int),
{
    expiry < now
}

/// One slide of a session's expiry, taken at `now`: rows whose expiry lies
/// after `now` and before `throttle_before` get `new_expiry`.
#[derive(Debug, Clone, Copy)]
pub struct ExpiryTouch {
    pub now: i64,
    pub new_expiry: i64,
    pub throttle_before: i64,
}

/// Whether a touch taken at `now` with lifetime `ttl` moves a row with this
/// expiry: it must still be live and more than the throttle away from a fresh
/// full window.
pub open spec fn touch_applies_spec(expiry: int, now: int, ttl: int) -> bool {
    expiry < now + (ttl - SLIDE_THROTTLE_SECS) && expiry > now
}

/// The bounds of sliding a session's expiry at `now` to `now + ttl`.
pub fn touch_expiry_plan(now: i64, ttl: i64) -> (r: ExpiryTouch)
    requires
        ttl - SLIDE_THROTTLE_SECS >= i64::MIN,
        i64::MIN <= now + (ttl - SLIDE_THROTTLE_SECS),
        now + ttl <= i64::MAX,
        i64::MIN <= now + ttl,
    ensures
        r.now == now,
        r.new_expiry == now + ttl,
        r.throttle_before == now + (ttl - SLIDE_THROTTLE_SECS),
{
    let new_expiry = now + ttl;
    let throttle_before = now + (ttl - SLIDE_THROTTLE_SECS);
    ExpiryTouch { now, new_expiry, throttle_before }
}

impl ExpiryTouch {
    /// Whether the touch moves a session row with this expiry.
    pub fn applies_to(&self, expiry: i64) -> (r: bool)
        ensures
            r == (expiry < self.throttle_before && expiry > self.now),
    {
        expiry < self.throttle_before && expiry > self.now
    }
}

/// A touch never brings an expired (or just expiring) session back.
pub proof fn law_touch_never_resurrects(expiry: int, now: int, ttl: int)
    requires
        expiry <= now,
    ensures
        !touch_applies_spec(expiry, now, ttl),
{
}

/// A touched session is moved forward, and is live at the moment of the touch
/// whenever the lifetime is positive.
pub proof fn law_touch_extends(expiry: int, now: int, ttl: int)
    requires
        touch_applies_spec(expiry, now, ttl),
    ensures
        now + ttl > expiry,
        is_live_spec(now + ttl, now),
{
}

/// After a touch at `now`, no later touch within the throttle window moves
/// the session again: a session is touched at most once per hour.
pub proof fn law_touch_at_most_once_per_hour(now: int, later: int, ttl: int)
    requires
        now <= later <= now + SLIDE_THROTTLE_SECS,
    ensures
        !touch_applies_spec(now + ttl, later, ttl),
{
}

/// No session is at the same time served and swept away.
pub proof fn law_live_and_expired_are_exclusive(expiry: int, now: int)
    ensures
        !(is_live_spec(expiry, now) && is_expired_spec(expiry, now)),
{
}

/// Errors of the session store.
#[derive(Debug)]
pub enum SessionError {
    /// The database failed; holds its message.
    DbError(String),
    NotFound,
    /// Session data could not be (de)serialized; holds the serializer's message.
    SerdeError(String),
    DecodeFailed,
}

/// The two kinds of error the session layer distinguishes.
#[derive(Debug)]
pub enum SessionStoreError {
    Backend(String),
    Decode(String),
}

impl SessionError {
    /// The error's message.
    pub fn message(&self) -> (r: String)
        ensures
            match self {
                SessionError::DbError(m) => r@ == m@,
                SessionError::NotFound => r@ == "Session not found"@,
                SessionError::SerdeError(m) => r@
                    == "An error occurred while serializing or deserializing session data: "@ + m@,
                SessionError::DecodeFailed => r@ == "Failed to decode session data"@,
            },
    {
        match self {
            SessionError::DbError(m) => m.clone(),
            SessionError::NotFound => String::from_str("Session not found"),
            SessionError::SerdeError(m) => {
                let mut r = String::from_str(
                    "An error occurred while serializing or deserializing session data: ",
                );
                r.append(m.as_str());
                r
            },
            SessionError::DecodeFailed => String::from_str("Failed to decode session data"),
        }
    }

    /// The session layer's error for this one: a missing session or a failed
    /// database is a backend error, the rest are decode errors.
    pub fn into_store_error(self) -> (r: SessionStoreError)
        ensures
            match self {
                SessionError::DbError(m) => r matches SessionStoreError::Backend(e) && e@ == m@,
                SessionError::NotFound => r matches SessionStoreError::Backend(e) && e@
                    == "Session not found"@,
                SessionError::SerdeError(m) => r matches SessionStoreError::Decode(e) && e@ == m@,
                SessionError::DecodeFailed => r matches SessionStoreError::Decode(e) && e@
                    == "Failed to decode session data"@,
            },
    {
        match self {
            SessionError::NotFound => SessionStoreError::Backend(String::from_str("Session not found")),
            SessionError::DbError(m) => SessionStoreError::Backend(m),
            SessionError::SerdeError(m) => SessionStoreError::Decode(m),
            SessionError::DecodeFailed => SessionStoreError::Decode(
                String::from_str("Failed to decode session data"),
            ),
        }
    }
}

/// The user a saved session belongs to: the session data must hold the user
/// id as a string.
pub fn saved_session_user(user_id: Option<String>) -> (r: Result<String, SessionError>)
    ensures
        match user_id {
            Some(id) => r matches Ok(u) && u@ == id@,
            None => r matches Err(SessionError::NotFound),
        },
{
    match user_id {
        Some(id) => Ok(id),
        None => Err(SessionError::NotFound),
    }
}

/// Whether expired sessions are swept periodically: a cleanup interval of
/// zero seconds turns the sweep off.
pub fn expiry_cleanup_enabled(interval_secs: u64) -> (r: bool)
    ensures
        r == (interval_secs > 0),
{
    interval_secs > 0
}

} // verus!
