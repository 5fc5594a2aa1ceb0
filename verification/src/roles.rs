//! The closed set of dashboard roles and the role check used by
//! authorization guards.

use vstd::prelude::*;

verus! {

/// A dashboard user's role. The set is closed: a role outside this
/// enumeration cannot be constructed, so an invalid role is impossible
/// once a principal exists.
#[derive(Clone, Copy, Debug, PartialEq, Eq, Structural)]
pub enum Role {
    Admin,
    Viewer,
}

/// The wire name of a role, as it appears inside a session token.
pub open spec fn spec_role_name(r: Role) -> Seq<char> {
    match r {
        Role::Admin => "admin"@,
        Role::Viewer => "viewer"@,
    }
}

impl Role {
    /// The wire name of the role.
    pub fn as_str(&self) -> (r: &'static str)
        ensures
            r@ == spec_role_name(*self),
    {
        match self {
            Role::Admin => "admin",
            Role::Viewer => "viewer",
        }
    }

    /// Whether this role is one of the roles a route allows.
    pub fn is_allowed(&self, allowed: &Vec<Role>) -> (r: bool)
        ensures
            r == allowed@.contains(*self),
    {
        let mut i: usize = 0;
        while i < allowed.len()
            invariant
                0 <= i <= allowed@.len(),
                forall|j: int| 0 <= j < i ==> allowed@[j] != *self,
            decreases allowed@.len() - i,
        {
            if allowed[i] == *self {
                return true;
            }
            i += 1;
        }
        false
    }
}

/// The role whose wire name is `s`, if any.
pub fn role_from_name(s: &str) -> (r: Option<Role>)
    ensures
        r matches Some(role) ==> s@ == spec_role_name(role),
        r is None ==> forall|role: Role| s@ != spec_role_name(role),
{
    proof {
        reveal_strlit("admin");
        reveal_strlit("viewer");
    }
    let t = String::from_str(s);
    if t == String::from_str("admin") {
        Some(Role::Admin)
    } else if t == String::from_str("viewer") {
        Some(Role::Viewer)
    } else {
        None
    }
}

/// The two role names differ, so `spec_role_name` is injective.
pub proof fn lemma_role_name_injective(a: Role, b: Role)
    ensures
        spec_role_name(a) == spec_role_name(b) ==> a == b,
{
    reveal_strlit("admin");
    reveal_strlit("viewer");
    if a != b {
        assert(spec_role_name(Role::Admin).len() == 5);
        assert(spec_role_name(Role::Viewer).len() == 6);
    }
}

} // verus!
