//! ARP wire messages and the transport-independent parts of the gRPC services.
pub mod proto;
pub mod convert;
pub mod token;
pub mod discovery;
pub mod agent;
pub mod bridge;
pub mod workspace;
pub mod project;

use vstd::prelude::*;

verus! {

/// The caller of a gRPC request: the scoped token its `authorization`
/// metadata carries when that token is valid, else the local admin.
pub fn extract_token(scoped: Option<crate::auth::ScopedToken>) -> (r: crate::auth::ScopedToken)
    ensures
        match scoped {
            Some(t) => r@ == t@,
            None => crate::server::is_localhost_admin(r@),
        },
{
    match scoped {
        Some(t) => t,
        None => crate::auth::localhost_admin_token(),
    }
}

} // verus!
