//! What the session layer decides: requests under the admin scope carry a
//! logged-in user's identity or are turned away to the login page. Reading
//! and renewing the session cookie itself is transport work and stays with
//! the processes around the verified core; they hand in the user identity
//! the session resolved to, if any.

use vstd::prelude::*;
use crate::http::{see_other, see_other_view, HttpResponse};

verus! {

/// The identity of the logged-in user a request is made by.
#[derive(Clone, Copy, PartialEq, Eq, Structural, Debug)]
pub struct UserId(pub u128);

/// The admin-scope guard: a request whose session resolved to no user is
/// answered with a redirect to `/login`; otherwise the user's identity is
/// handed on to the route.
pub fn require_login(session_user: Option<UserId>) -> (r: Result<UserId, HttpResponse>)
    ensures
        session_user matches Some(u) ==> r matches Ok(v) && v == u,
        session_user is None ==> (r matches Err(resp) && resp@ == see_other_view("/login"@)),
{
    match session_user {
        Some(u) => Ok(u),
        None => Err(see_other("/login")),
    }
}

/// Builds the middleware that applies the admin-scope guard.
pub struct SessionAuthMiddlewareFactory;

impl SessionAuthMiddlewareFactory {
    pub fn default() -> SessionAuthMiddlewareFactory {
        SessionAuthMiddlewareFactory
    }
}

} // verus!
