//! The values the authentication layer hands to the engine. The login
//! flows themselves (OIDC redirects, token exchange, JWT issuance) are
//! outside collaborators and stay outside the engine.

use vstd::prelude::*;

use crate::database::Tenant;

verus! {

/// A caller identity as established by the surrounding authentication
/// layer: an email address and the tenants it may act under.
#[derive(Debug, Clone)]
pub struct ApiKey {
    pub email: String,
    pub tenants: Vec<Tenant>,
}

/// Logging out keeps no server-side session state to discard.
pub fn auth_logout() -> &'static str {
    "todo"
}

} // verus!
