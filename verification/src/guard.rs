//! Role-gated authorization: the reusable check a handler (or a second
//! middleware layer) consults after a principal is attached. It applies
//! only to user principals; agent routes are scoped by organization
//! instead of role.

use vstd::prelude::*;

use crate::errors::AuthError;
use crate::principal::{Principal, PrincipalView};
use crate::roles::Role;

verus! {

/// Grants when the principal is a user whose role is among the roles
/// the route allows, and rejects everything else with the one error
/// that surfaces as 403.
pub fn require_role(p: &Principal, allowed: &Vec<Role>) -> (r: Result<(), AuthError>)
    ensures
        r is Ok <==> (p@ matches PrincipalView::User { role, .. } && allowed@.contains(role)),
        r is Err ==> r->Err_0 == AuthError::InsufficientRole,
{
    match p {
        Principal::User { role, .. } => {
            if role.is_allowed(allowed) {
                Ok(())
            } else {
                Err(AuthError::InsufficientRole)
            }
        },
        Principal::Agent { .. } => Err(AuthError::InsufficientRole),
    }
}

} // verus!
