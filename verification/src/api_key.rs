//! Structural validation of machine API keys. A key is four non-empty
//! underscore-delimited segments — prefix, organization, agent, random
//! secret — and validates only under the configured prefix. The
//! validator is intentionally structural: a registry lookup would slot
//! in behind the same interface, and callers must treat the result as
//! authoritative only up to this structural guarantee.

use vstd::prelude::*;

use crate::errors::AuthError;
use crate::strutil::{find_char_any, lemma_peel_segment};

verus! {

/// A validated machine principal: the organization and agent scope
/// parsed from a structurally valid API key, and the configured prefix
/// the key was validated against.
#[derive(Debug, Clone, PartialEq, Eq)]
pub struct AgentAuth {
    pub org_id: String,
    pub agent_id: String,
    pub key_prefix: String,
}

impl AgentAuth {
    /// Packs an already-validated scope.
    pub fn new(org_id: String, agent_id: String, key_prefix: String) -> (r: AgentAuth)
        ensures
            r.org_id@ == org_id@,
            r.agent_id@ == agent_id@,
            r.key_prefix@ == key_prefix@,
    {
        AgentAuth { org_id, agent_id, key_prefix }
    }
}

/// No underscore in the segment, so it cannot disturb the delimiting.
pub open spec fn underscore_free(s: Seq<char>) -> bool {
    forall|i: int| 0 <= i < s.len() ==> s[i] != '_'
}

/// The wire format of an API key: four segments joined by underscores.
pub open spec fn api_key_of(
    prefix: Seq<char>,
    org: Seq<char>,
    agent: Seq<char>,
    secret: Seq<char>,
) -> Seq<char> {
    prefix + seq!['_'] + org + seq!['_'] + agent + seq!['_'] + secret
}

/// The structural invariant of a key's segments: all four non-empty and
/// underscore-free, so the key splits into exactly four segments.
pub open spec fn wf_key_parts(
    prefix: Seq<char>,
    org: Seq<char>,
    agent: Seq<char>,
    secret: Seq<char>,
) -> bool {
    &&& prefix.len() > 0 && underscore_free(prefix)
    &&& org.len() > 0 && underscore_free(org)
    &&& agent.len() > 0 && underscore_free(agent)
    &&& secret.len() > 0 && underscore_free(secret)
}

/// Aligns a well-formed decomposition of a key with the first three
/// underscore positions its parser found.
proof fn lemma_key_align(
    t: Seq<char>,
    prefix: Seq<char>,
    org: Seq<char>,
    agent: Seq<char>,
    secret: Seq<char>,
    q0: int,
    q1: int,
    q2: int,
)
    requires
        wf_key_parts(prefix, org, agent, secret),
        t == api_key_of(prefix, org, agent, secret),
        0 <= q0 < q1 < q2 < t.len(),
        t[q0] == '_' && t[q1] == '_' && t[q2] == '_',
        forall|j: int| 0 <= j < q0 ==> t[j] != '_',
        forall|j: int| q0 < j < q1 ==> t[j] != '_',
        forall|j: int| q1 < j < q2 ==> t[j] != '_',
    ensures
        t.subrange(0, q0) == prefix,
        t.subrange(q0 + 1, q1) == org,
        t.subrange(q1 + 1, q2) == agent,
        t.subrange(q2 + 1, t.len() as int) == secret,
{
    let rest1 = org + seq!['_'] + agent + seq!['_'] + secret;
    let rest2 = agent + seq!['_'] + secret;
    assert(t.subrange(0, t.len() as int) =~= t);
    assert(t =~= prefix + seq!['_'] + rest1);
    lemma_peel_segment(t, 0, prefix, rest1, q0, '_');
    assert(rest1 =~= org + seq!['_'] + rest2);
    lemma_peel_segment(t, q0 + 1, org, rest2, q1, '_');
    assert(rest2 =~= agent + seq!['_'] + secret);
    lemma_peel_segment(t, q1 + 1, agent, secret, q2, '_');
}

/// Validates the structure of a raw API key against the configured
/// prefix: exactly four non-empty underscore-delimited segments whose
/// first equals the prefix. On success the organization and agent scope
/// come from the fixed second and third positions.
#[verifier::rlimit(100)]
pub fn validate_api_key(raw_key: &str, configured_prefix: &str) -> (r: Result<
    AgentAuth,
    AuthError,
>)
    ensures
        r matches Ok(a) ==> a.key_prefix@ == configured_prefix@ && exists|sec: Seq<char>|
            wf_key_parts(configured_prefix@, a.org_id@, a.agent_id@, sec) && raw_key@
                == api_key_of(configured_prefix@, a.org_id@, a.agent_id@, sec),
        forall|org: Seq<char>, agent: Seq<char>, sec: Seq<char>|
            wf_key_parts(configured_prefix@, org, agent, sec) && raw_key@ == api_key_of(
                configured_prefix@,
                org,
                agent,
                sec,
            ) ==> (r matches Ok(a) && a.org_id@ == org && a.agent_id@ == agent && a.key_prefix@
                == configured_prefix@),
        forall|p2: Seq<char>, org: Seq<char>, agent: Seq<char>, sec: Seq<char>|
            wf_key_parts(p2, org, agent, sec) && raw_key@ == api_key_of(p2, org, agent, sec) && p2
                != configured_prefix@ ==> r == Err::<AgentAuth, AuthError>(
                AuthError::PrefixMismatch,
            ),
        r is Err ==> (r->Err_0 == AuthError::MalformedApiKey || r->Err_0
            == AuthError::PrefixMismatch),
{
    let ghost t = raw_key@;
    let n: usize = raw_key.unicode_len();
    let q0 = match find_char_any(raw_key, 0, '_') {
        Some(i) => i,
        None => {
            proof {
                assert forall|p2: Seq<char>, org: Seq<char>, agent: Seq<char>, sec: Seq<char>|
                    !(wf_key_parts(p2, org, agent, sec) && t == api_key_of(
                        p2,
                        org,
                        agent,
                        sec,
                    )) by {
                    if wf_key_parts(p2, org, agent, sec) && t == api_key_of(p2, org, agent, sec) {
                        assert(t[p2.len() as int] == '_');
                    }
                }
            }
            return Err(AuthError::MalformedApiKey);
        },
    };
    let q1 = match find_char_any(raw_key, q0 + 1, '_') {
        Some(i) => i,
        None => {
            proof {
                assert forall|p2: Seq<char>, org: Seq<char>, agent: Seq<char>, sec: Seq<char>|
                    !(wf_key_parts(p2, org, agent, sec) && t == api_key_of(
                        p2,
                        org,
                        agent,
                        sec,
                    )) by {
                    if wf_key_parts(p2, org, agent, sec) && t == api_key_of(p2, org, agent, sec) {
                        let rest1 = org + seq!['_'] + agent + seq!['_'] + sec;
                        assert(t.subrange(0, t.len() as int) =~= t);
                        assert(t =~= p2 + seq!['_'] + rest1);
                        lemma_peel_segment(t, 0, p2, rest1, q0 as int, '_');
                        assert(t[q0 + 1 + org.len()] == '_') by {
                            assert(t.subrange(q0 + 1, t.len() as int)[org.len() as int] == t[q0 + 1
                                + org.len()]);
                        }
                    }
                }
            }
            return Err(AuthError::MalformedApiKey);
        },
    };
    let q2 = match find_char_any(raw_key, q1 + 1, '_') {
        Some(i) => i,
        None => {
            proof {
                assert forall|p2: Seq<char>, org: Seq<char>, agent: Seq<char>, sec: Seq<char>|
                    !(wf_key_parts(p2, org, agent, sec) && t == api_key_of(
                        p2,
                        org,
                        agent,
                        sec,
                    )) by {
                    if wf_key_parts(p2, org, agent, sec) && t == api_key_of(p2, org, agent, sec) {
                        let rest2 = agent + seq!['_'] + sec;
                        let rest1 = org + seq!['_'] + rest2;
                        assert(t.subrange(0, t.len() as int) =~= t);
                        assert(t =~= p2 + seq!['_'] + rest1);
                        lemma_peel_segment(t, 0, p2, rest1, q0 as int, '_');
                        assert(rest1 =~= org + seq!['_'] + rest2);
                        lemma_peel_segment(t, q0 + 1, org, rest2, q1 as int, '_');
                        assert(t[q1 + 1 + agent.len()] == '_') by {
                            assert(t.subrange(q1 + 1, t.len() as int)[agent.len() as int] == t[q1
                                + 1 + agent.len()]);
                        }
                    }
                }
            }
            return Err(AuthError::MalformedApiKey);
        },
    };
    // a fourth underscore would mean more than four segments
    let extra = find_char_any(raw_key, q2 + 1, '_');
    let has_extra = match extra {
        Some(_) => true,
        None => false,
    };
    let empty_segment = q0 == 0 || q1 == q0 + 1 || q2 == q1 + 1 || n == q2 + 1;
    if has_extra || empty_segment {
        proof {
            assert forall|p2: Seq<char>, org: Seq<char>, agent: Seq<char>, sec: Seq<char>|
                !(wf_key_parts(p2, org, agent, sec) && t == api_key_of(p2, org, agent, sec)) by {
                if wf_key_parts(p2, org, agent, sec) && t == api_key_of(p2, org, agent, sec) {
                    lemma_key_align(t, p2, org, agent, sec, q0 as int, q1 as int, q2 as int);
                    assert(q0 == p2.len());
                    assert(q1 == q0 + 1 + org.len());
                    assert(q2 == q1 + 1 + agent.len());
                    assert(t.len() == q2 + 1 + sec.len());
                    match extra {
                        Some(i) => {
                            assert(t[i as int] == sec[i - q2 - 1]);
                        },
                        None => {},
                    }
                }
            }
        }
        return Err(AuthError::MalformedApiKey);
    }
    let prefix_seg = raw_key.substring_char(0, q0);
    let prefix_matches = String::from_str(prefix_seg) == String::from_str(configured_prefix);
    proof {
        assert forall|p2: Seq<char>, org: Seq<char>, agent: Seq<char>, sec: Seq<char>|
            wf_key_parts(p2, org, agent, sec) && t == api_key_of(p2, org, agent, sec)
            implies p2 == prefix_seg@ by {
            lemma_key_align(t, p2, org, agent, sec, q0 as int, q1 as int, q2 as int);
        }
    }
    if !prefix_matches {
        return Err(AuthError::PrefixMismatch);
    }
    let org_seg = raw_key.substring_char(q0 + 1, q1);
    let agent_seg = raw_key.substring_char(q1 + 1, q2);
    let auth = AgentAuth::new(
        String::from_str(org_seg),
        String::from_str(agent_seg),
        String::from_str(configured_prefix),
    );
    proof {
        let sec = t.subrange(q2 + 1, t.len() as int);
        assert(t =~= prefix_seg@ + seq!['_'] + org_seg@ + seq!['_'] + agent_seg@ + seq!['_']
            + sec);
        assert(underscore_free(prefix_seg@));
        assert(underscore_free(org_seg@));
        assert(underscore_free(agent_seg@));
        assert(underscore_free(sec));
        assert(sec.len() == n - q2 - 1 > 0);
        assert(wf_key_parts(configured_prefix@, org_seg@, agent_seg@, sec));
        assert(t == api_key_of(configured_prefix@, auth.org_id@, auth.agent_id@, sec));
        assert forall|p2: Seq<char>, org: Seq<char>, agent: Seq<char>, sec2: Seq<char>|
            wf_key_parts(p2, org, agent, sec2) && t == api_key_of(p2, org, agent, sec2)
            implies p2 == configured_prefix@ && org == org_seg@ && agent == agent_seg@ by {
            lemma_key_align(t, p2, org, agent, sec2, q0 as int, q1 as int, q2 as int);
        }
    }
    Ok(auth)
}

} // verus!
