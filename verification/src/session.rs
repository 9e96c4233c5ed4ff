//! Short-lived sessions.
//!
//! A session binds a caller to a verified user id for a fixed time-to-live.
//! Expiry is passive: a session whose age exceeds the TTL is treated as
//! absent on next access. Renewal resets the TTL from the access time; it
//! never extends the lifetime unboundedly, so remaining lifetime is always at
//! most the configured TTL.

use vstd::prelude::*;
use crate::id::EntityId;

verus! {

/// Default session time-to-live, in seconds: deliberately aggressive, since
/// re-entry with the physical badge is cheap.
pub const SESSION_TTL_SECONDS: u64 = 60;

/// An ephemeral binding of a caller to a verified user id.
#[derive(Clone, Copy, PartialEq, Eq, Structural, Debug)]
pub struct Session {
    pub user_id: EntityId,
    /// The instant (seconds) from which the session counts as absent.
    pub expires_at: u64,
}

/// Whether a session still counts as present at instant `now`.
pub open spec fn session_active(s: Session, now: u64) -> bool {
    now < s.expires_at
}

/// The identity a session state yields at instant `now`: the bound user when
/// a session is present and unexpired, nothing otherwise.
pub open spec fn current_identity_spec(session: Option<Session>, now: u64) -> Option<EntityId> {
    match session {
        Some(s) => if session_active(s, now) {
            Some(s.user_id)
        } else {
            None
        },
        None => None,
    }
}

/// The session that results from a successful login at instant `now`: a
/// still-active session is renewed (same user, TTL reset), any other state
/// yields a fresh session bound to the verified user.
pub open spec fn begin_or_renew_spec(
    session: Option<Session>,
    verified_user_id: EntityId,
    now: u64,
    ttl: u64,
) -> Session {
    match current_identity_spec(session, now) {
        Some(existing_user) => Session { user_id: existing_user, expires_at: (now + ttl) as u64 },
        None => Session { user_id: verified_user_id, expires_at: (now + ttl) as u64 },
    }
}

/// Returns the identity bound to the caller's session, or nothing when no
/// session is present or it has expired.
pub fn current_identity(session: &Option<Session>, now: u64) -> (r: Option<EntityId>)
    ensures
        r == current_identity_spec(*session, now),
{
    match session {
        Some(s) => if now < s.expires_at {
            Some(s.user_id)
        } else {
            None
        },
        None => None,
    }
}

/// Issues the session for a successful login: renews a still-active session
/// (resetting its TTL rather than extending it), otherwise mints a fresh
/// session bound to `verified_user_id`.
pub fn begin_or_renew(
    session: &Option<Session>,
    verified_user_id: EntityId,
    now: u64,
    ttl: u64,
) -> (r: Session)
    requires
        now + ttl <= u64::MAX,
    ensures
        r == begin_or_renew_spec(*session, verified_user_id, now, ttl),
{
    let expires_at = now + ttl;
    match current_identity(session, now) {
        Some(existing_user) => Session { user_id: existing_user, expires_at },
        None => Session { user_id: verified_user_id, expires_at },
    }
}

/// Session TTL law, expiry half: a session issued or renewed at instant
/// `issued` yields no identity at any instant at or past `issued + ttl`.
pub proof fn lemma_session_expired(
    session: Option<Session>,
    user: EntityId,
    issued: u64,
    ttl: u64,
    later: u64,
)
    requires
        issued + ttl <= u64::MAX,
        later >= issued + ttl,
    ensures
        current_identity_spec(Some(begin_or_renew_spec(session, user, issued, ttl)), later)
            is None,
{
}

/// Session TTL law, renewal half: a login at any instant at which the
/// session is still active keeps its user and resets its expiry to that
/// instant plus the TTL — never later.
pub proof fn lemma_session_renewal(s: Session, user: EntityId, access: u64, ttl: u64)
    requires
        session_active(s, access),
        access + ttl <= u64::MAX,
    ensures
        begin_or_renew_spec(Some(s), user, access, ttl) == (Session {
            user_id: s.user_id,
            expires_at: (access + ttl) as u64,
        }),
{
}

} // verus!
