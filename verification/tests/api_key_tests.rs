use anticheat::api_key::{validate_api_key, AgentAuth};
use anticheat::errors::AuthError;

#[test]
fn well_formed_key_validates_to_its_scope() {
    let auth = validate_api_key("org_acme_agent7_xK9mQ2pL8vN4rT6w", "org").expect("key validates");
    assert_eq!(auth.org_id, "acme");
    assert_eq!(auth.agent_id, "agent7");
    assert_eq!(auth.key_prefix, "org");
}

#[test]
fn same_key_under_other_prefix_is_prefix_mismatch() {
    assert_eq!(
        validate_api_key("org_acme_agent7_xK9mQ2pL8vN4rT6w", "corp"),
        Err(AuthError::PrefixMismatch)
    );
}

#[test]
fn fewer_than_four_segments_is_malformed() {
    assert_eq!(validate_api_key("", "org"), Err(AuthError::MalformedApiKey));
    assert_eq!(validate_api_key("org", "org"), Err(AuthError::MalformedApiKey));
    assert_eq!(validate_api_key("org_acme", "org"), Err(AuthError::MalformedApiKey));
    assert_eq!(validate_api_key("org_acme_agent7", "org"), Err(AuthError::MalformedApiKey));
}

#[test]
fn more_than_four_segments_is_malformed() {
    assert_eq!(
        validate_api_key("org_acme_agent7_xK9_extra", "org"),
        Err(AuthError::MalformedApiKey)
    );
}

#[test]
fn empty_segments_are_malformed() {
    assert_eq!(validate_api_key("_acme_agent7_xK9", "org"), Err(AuthError::MalformedApiKey));
    assert_eq!(validate_api_key("org__agent7_xK9", "org"), Err(AuthError::MalformedApiKey));
    assert_eq!(validate_api_key("org_acme__xK9", "org"), Err(AuthError::MalformedApiKey));
    assert_eq!(validate_api_key("org_acme_agent7_", "org"), Err(AuthError::MalformedApiKey));
}

#[test]
fn malformed_beats_prefix_comparison() {
    // structurally broken even though the prefix differs
    assert_eq!(validate_api_key("corp_acme", "org"), Err(AuthError::MalformedApiKey));
}

#[test]
fn unicode_segments_validate() {
    let auth = validate_api_key("org_äcme_agent7_secret", "org").expect("key validates");
    assert_eq!(auth.org_id, "äcme");
}

#[test]
fn agent_auth_packs_fields() {
    let a = AgentAuth::new("acme".to_string(), "agent7".to_string(), "org".to_string());
    assert_eq!(a.org_id, "acme");
    assert_eq!(a.agent_id, "agent7");
    assert_eq!(a.key_prefix, "org");
}
