//! The resolved identity of a request: exactly one validated principal,
//! carrying an organization scope, before any handler runs. A principal
//! is built fresh from the presented credential on every request and
//! never cached across requests.

use vstd::prelude::*;

use crate::api_key::AgentAuth;
use crate::roles::Role;
use crate::strutil::push_char;
use crate::token::{Claims, ClaimsView};

verus! {

/// The authenticated identity and scope resolved from a credential:
/// either a dashboard user from a session token, or a machine agent
/// from an API key.
#[derive(Clone, Debug)]
pub enum Principal {
    User { user_id: String, org_id: String, role: Role, issued_at: i64, expires_at: i64 },
    Agent { org_id: String, agent_id: String, key_fingerprint: String },
}

/// The mathematical content of a `Principal`.
pub ghost enum PrincipalView {
    User { user_id: Seq<char>, org_id: Seq<char>, role: Role, issued_at: int, expires_at: int },
    Agent { org_id: Seq<char>, agent_id: Seq<char>, key_fingerprint: Seq<char> },
}

impl View for Principal {
    type V = PrincipalView;

    open spec fn view(&self) -> PrincipalView {
        match self {
            Principal::User { user_id, org_id, role, issued_at, expires_at } => PrincipalView::User {
                user_id: user_id@,
                org_id: org_id@,
                role: *role,
                issued_at: *issued_at as int,
                expires_at: *expires_at as int,
            },
            Principal::Agent { org_id, agent_id, key_fingerprint } => PrincipalView::Agent {
                org_id: org_id@,
                agent_id: agent_id@,
                key_fingerprint: key_fingerprint@,
            },
        }
    }
}

/// The organization scope of a principal: non-empty for every variant,
/// and the key by which every data operation must be filtered.
pub open spec fn spec_org_of(p: PrincipalView) -> Seq<char> {
    match p {
        PrincipalView::User { org_id, .. } => org_id,
        PrincipalView::Agent { org_id, .. } => org_id,
    }
}

/// A principal is well-formed when its organization scope is non-empty
/// and, for a user, its validity window is monotone.
pub open spec fn wf_principal(p: PrincipalView) -> bool {
    &&& spec_org_of(p).len() > 0
    &&& p matches PrincipalView::User { issued_at, expires_at, .. } ==> issued_at < expires_at
}

/// The user principal that verified claims resolve to.
pub open spec fn spec_user_principal(c: ClaimsView) -> PrincipalView {
    PrincipalView::User {
        user_id: c.sub,
        org_id: c.org_id,
        role: c.role,
        issued_at: c.iat,
        expires_at: c.exp,
    }
}

/// The agent principal that a validated key resolves to: its
/// fingerprint is the key's non-secret part, prefix, organization and
/// agent joined by underscores — never the random secret.
pub open spec fn spec_agent_principal(
    prefix: Seq<char>,
    org: Seq<char>,
    agent: Seq<char>,
) -> PrincipalView {
    PrincipalView::Agent {
        org_id: org,
        agent_id: agent,
        key_fingerprint: prefix + seq!['_'] + org + seq!['_'] + agent,
    }
}

impl Principal {
    /// The organization scope this principal is confined to.
    pub fn org_id(&self) -> (r: &String)
        ensures
            r@ == spec_org_of(self@),
    {
        match self {
            Principal::User { org_id, .. } => org_id,
            Principal::Agent { org_id, .. } => org_id,
        }
    }

    /// Resolves verified claims to the user principal they carry.
    pub fn from_claims(c: Claims) -> (r: Principal)
        ensures
            r@ == spec_user_principal(c@),
            crate::token::wf_claims(c@) ==> wf_principal(r@),
    {
        Principal::User {
            user_id: c.sub,
            org_id: c.org_id,
            role: c.role,
            issued_at: c.iat,
            expires_at: c.exp,
        }
    }

    /// Resolves a structurally validated key to its agent principal.
    pub fn from_agent(a: AgentAuth) -> (r: Principal)
        ensures
            r@ == spec_agent_principal(a.key_prefix@, a.org_id@, a.agent_id@),
            a.org_id@.len() > 0 ==> wf_principal(r@),
    {
        let mut fp = a.key_prefix;
        push_char(&mut fp, '_');
        fp.append(a.org_id.as_str());
        push_char(&mut fp, '_');
        fp.append(a.agent_id.as_str());
        proof {
            assert(fp@ =~= a.key_prefix@ + seq!['_'] + a.org_id@ + seq!['_'] + a.agent_id@);
        }
        let r = Principal::Agent { org_id: a.org_id, agent_id: a.agent_id, key_fingerprint: fp };
        proof {
            assert(spec_org_of(r@) == a.org_id@);
        }
        r
    }
}

} // verus!
