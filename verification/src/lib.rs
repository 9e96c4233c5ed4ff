//! Verified core of an inventory-tracking service.
//!
//! Users check items in and out of named storage locations. Identity is
//! verified with a two-factor scheme: a long-lived sealed "physical token"
//! (bound to a QR badge) plus a short numeric passcode, cross-checked against
//! the stored user record; success issues a short-lived session. Mutations of
//! items and locations pass through a guard that validates relationships
//! (location exists, name uniqueness, borrower existence, no-op detection)
//! before committing.

use vstd::prelude::*;

pub mod id;
pub mod model;
pub mod text;
pub mod token;
pub mod passcode;
pub mod session;
pub mod store;
pub mod auth;

verus! {

/// Failure kinds surfaced by the core, mapped to transport status codes only
/// at the boundary.
#[derive(Clone, Copy, PartialEq, Eq, Structural, Debug)]
pub enum ApiError {
    /// Entity absent, or an update matched nothing.
    NotFound,
    /// Uniqueness violation on a name or identifier.
    Conflict,
    /// Failed credential check, including a structurally invalid token.
    Unauthorized,
    /// Malformed identifier.
    BadRequest,
    /// Storage or cryptographic primitive failure.
    InternalError,
}

} // verus!
