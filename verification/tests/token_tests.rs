use base64::Engine;

use anticheat::errors::AuthError;
use anticheat::roles::Role;
use anticheat::token::{issue, issue_at, verify_token, Claims};

const SECRET: &[u8] = b"0123456789abcdef0123456789abcdef";

#[test]
fn round_trip_returns_same_triple() {
    let (claims, token) = issue_at(
        SECRET,
        "alice@example.com".to_string(),
        "acme".to_string(),
        Role::Admin,
        1_700_000_000,
    );
    assert_eq!(claims.iat, 1_700_000_000);
    assert_eq!(claims.exp, 1_700_000_000 + 86400);
    let verified = verify_token(SECRET, &token, 1_700_000_100).expect("fresh token verifies");
    assert_eq!(verified.sub, "alice@example.com");
    assert_eq!(verified.org_id, "acme");
    assert_eq!(verified.role, Role::Admin);
    assert_eq!(verified.iat, claims.iat);
    assert_eq!(verified.exp, claims.exp);
}

#[test]
fn round_trip_with_awkward_subject() {
    // dots, underscores and non-ASCII in the subject must survive framing
    let sub = "weird._sub..ject@exämple.com".to_string();
    let (_, token) = issue_at(SECRET, sub.clone(), "org.1_x".to_string(), Role::Viewer, 50);
    let verified = verify_token(SECRET, &token, 60).expect("token verifies");
    assert_eq!(verified.sub, sub);
    assert_eq!(verified.org_id, "org.1_x");
    assert_eq!(verified.role, Role::Viewer);
}

#[test]
fn round_trip_with_empty_subject() {
    let (_, token) = issue_at(SECRET, String::new(), "acme".to_string(), Role::Viewer, 0);
    let verified = verify_token(SECRET, &token, 1).expect("token verifies");
    assert_eq!(verified.sub, "");
}

#[test]
fn issue_now_spans_one_day() {
    let (claims, token) = issue(
        SECRET,
        "bob@example.com".to_string(),
        "acme".to_string(),
        Role::Viewer,
    );
    assert_eq!(claims.exp, claims.iat + 86400);
    // the clock is sane: issued well after 2017 and before year 9999
    assert!(claims.iat > 1_500_000_000);
    assert!(claims.iat < 253_402_300_800);
    let verified = verify_token(SECRET, &token, claims.iat + 1).expect("token verifies");
    assert_eq!(verified.org_id, "acme");
}

#[test]
fn rejects_once_window_is_over() {
    let iat = 1_700_000_000;
    let exp = iat + 86400;
    let (_, token) = issue_at(SECRET, "a".to_string(), "acme".to_string(), Role::Admin, iat);
    // still inside the window one second before expiry
    assert!(verify_token(SECRET, &token, exp - 1).is_ok());
    // no grace period at the boundary
    assert_eq!(verify_token(SECRET, &token, exp), Err(AuthError::ExpiredToken));
    assert_eq!(verify_token(SECRET, &token, exp + 1), Err(AuthError::ExpiredToken));
    assert_eq!(
        verify_token(SECRET, &token, exp + 10_000_000),
        Err(AuthError::ExpiredToken)
    );
}

#[test]
fn flipping_any_signature_byte_invalidates() {
    let (_, token) = issue_at(SECRET, "alice".to_string(), "acme".to_string(), Role::Admin, 100);
    let bytes = token.as_bytes();
    // the signature segment follows the fifth dot
    let mut dots = 0usize;
    let mut sig_start = 0usize;
    for (i, b) in bytes.iter().enumerate() {
        if *b == b'.' {
            dots += 1;
            if dots == 5 {
                sig_start = i + 1;
                break;
            }
        }
    }
    assert_eq!(dots, 5);
    assert!(sig_start < bytes.len());
    for i in sig_start..bytes.len() {
        let mut tampered = bytes.to_vec();
        tampered[i] = if tampered[i] == b'A' { b'B' } else { b'A' };
        let tampered = String::from_utf8(tampered).unwrap();
        assert_eq!(
            verify_token(SECRET, &tampered, 200),
            Err(AuthError::SignatureInvalid),
            "flipped signature byte {} must invalidate",
            i
        );
    }
}

#[test]
fn truncated_signature_invalidates() {
    let (_, token) = issue_at(SECRET, "alice".to_string(), "acme".to_string(), Role::Admin, 100);
    let shorter = &token[..token.len() - 1];
    assert_eq!(verify_token(SECRET, shorter, 200), Err(AuthError::SignatureInvalid));
}

#[test]
fn wrong_secret_invalidates() {
    let other: &[u8] = b"abcdef0123456789abcdef0123456789";
    let (_, token) = issue_at(SECRET, "alice".to_string(), "acme".to_string(), Role::Admin, 100);
    assert_eq!(verify_token(other, &token, 200), Err(AuthError::SignatureInvalid));
}

#[test]
fn tampered_payload_invalidates() {
    // swap the organization segment for another: the tag no longer matches
    let (_, token) = issue_at(SECRET, "alice".to_string(), "acme".to_string(), Role::Admin, 100);
    let parts: Vec<&str> = token.split('.').collect();
    assert_eq!(parts.len(), 6);
    let (_, other_token) =
        issue_at(SECRET, "alice".to_string(), "evil".to_string(), Role::Admin, 100);
    let other_parts: Vec<&str> = other_token.split('.').collect();
    let forged = format!(
        "{}.{}.{}.{}.{}.{}",
        parts[0], other_parts[1], parts[2], parts[3], parts[4], parts[5]
    );
    assert_eq!(verify_token(SECRET, &forged, 200), Err(AuthError::SignatureInvalid));
}

#[test]
fn malformed_encodings_are_rejected() {
    assert_eq!(verify_token(SECRET, "", 0), Err(AuthError::MalformedCredential));
    assert_eq!(verify_token(SECRET, "no-dots-at-all", 0), Err(AuthError::MalformedCredential));
    assert_eq!(verify_token(SECRET, "a.b.c.d", 0), Err(AuthError::MalformedCredential));
    // five dots but garbage segments still fail at the signature check
    assert_eq!(
        verify_token(SECRET, "a.b.c.d.e.f", 0),
        Err(AuthError::SignatureInvalid)
    );
}

#[test]
fn valid_signature_over_garbage_claims_is_malformed() {
    // build payloads signed with the real secret whose claims are broken
    let cases = [
        // role outside the closed set
        ("YQ", "YWNtZQ", "root", "1", "100"),
        // non-canonical decimal issue time
        ("YQ", "YWNtZQ", "admin", "01", "100"),
        // negative zero expiry
        ("YQ", "YWNtZQ", "admin", "1", "-0"),
        // window not monotone
        ("YQ", "YWNtZQ", "admin", "100", "100"),
        // empty organization
        ("YQ", "", "admin", "1", "100"),
        // subject segment is not base64url
        ("!!", "YWNtZQ", "admin", "1", "100"),
    ];
    for (s0, s1, s2, s3, s4) in cases {
        let payload = format!("{s0}.{s1}.{s2}.{s3}.{s4}");
        let sig = jsonwebtoken::crypto::sign(
            payload.as_bytes(),
            &jsonwebtoken::EncodingKey::from_secret(SECRET),
            jsonwebtoken::Algorithm::HS512,
        )
        .unwrap();
        let token = format!("{payload}.{sig}");
        // sanity: the base64 segments decode as intended
        let engine = base64::engine::general_purpose::URL_SAFE_NO_PAD;
        assert_eq!(engine.decode("YWNtZQ").unwrap(), b"acme");
        assert_eq!(
            verify_token(SECRET, &token, 0),
            Err(AuthError::MalformedCredential),
            "payload {payload} must be malformed"
        );
    }
}

#[test]
fn signature_segment_matches_independent_hmac() {
    // the token's tag must be exactly what jsonwebtoken computes over
    // the payload: this fails if the signing wrapper altered its input
    let (_, token) = issue_at(SECRET, "alice".to_string(), "acme".to_string(), Role::Admin, 100);
    let fifth_dot = token
        .char_indices()
        .filter(|(_, c)| *c == '.')
        .nth(4)
        .map(|(i, _)| i)
        .unwrap();
    let payload = &token[..fifth_dot];
    let sig = &token[fifth_dot + 1..];
    let expected = jsonwebtoken::crypto::sign(
        payload.as_bytes(),
        &jsonwebtoken::EncodingKey::from_secret(SECRET),
        jsonwebtoken::Algorithm::HS512,
    )
    .unwrap();
    assert_eq!(sig, expected);
    assert!(jsonwebtoken::crypto::verify(
        sig,
        payload.as_bytes(),
        &jsonwebtoken::DecodingKey::from_secret(SECRET),
        jsonwebtoken::Algorithm::HS512,
    )
    .unwrap());
}

#[test]
fn subject_segment_is_base64url_of_subject() {
    let (_, token) = issue_at(
        SECRET,
        "weird._sub".to_string(),
        "acme".to_string(),
        Role::Admin,
        100,
    );
    let seg0 = token.split('.').next().unwrap();
    let engine = base64::engine::general_purpose::URL_SAFE_NO_PAD;
    assert_eq!(engine.decode(seg0).unwrap(), "weird._sub".as_bytes());
    assert_ne!(seg0, "weird._sub");
}

#[test]
fn has_role_compares_wire_names() {
    let claims = Claims::with_issued_at("a".to_string(), "acme".to_string(), Role::Viewer, 0);
    assert!(claims.has_role("viewer"));
    assert!(!claims.has_role("admin"));
    assert!(!claims.has_role("Viewer"));
    assert!(!claims.has_role(""));
}

#[test]
fn round_trip_with_pre_epoch_issue_time() {
    // a negative issue time exercises the signed decimal segments
    let (claims, token) =
        issue_at(SECRET, "a".to_string(), "acme".to_string(), Role::Admin, -100_000);
    assert_eq!(claims.exp, -100_000 + 86400);
    let verified = verify_token(SECRET, &token, -99_999).expect("token verifies");
    assert_eq!(verified.iat, -100_000);
    assert_eq!(verified.exp, -100_000 + 86400);
}

#[test]
fn round_trip_at_the_largest_issue_time() {
    let iat = i64::MAX - 86400;
    let (claims, token) = issue_at(SECRET, "a".to_string(), "acme".to_string(), Role::Admin, iat);
    assert_eq!(claims.exp, i64::MAX);
    let verified = verify_token(SECRET, &token, iat).expect("token verifies");
    assert_eq!(verified.iat, iat);
    assert_eq!(verified.exp, i64::MAX);
}
