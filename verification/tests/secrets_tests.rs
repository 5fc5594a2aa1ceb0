use anticheat::errors::ConfigError;
use anticheat::secrets::SecretMaterial;

fn bytes(n: usize) -> Vec<u8> {
    vec![b'x'; n]
}

#[test]
fn boot_fails_without_jwt_secret() {
    assert!(matches!(
        SecretMaterial::load(None, Some(bytes(64))),
        Err(ConfigError::MissingJwtSecret)
    ));
}

#[test]
fn boot_fails_on_short_jwt_secret() {
    assert!(matches!(
        SecretMaterial::load(Some(bytes(31)), Some(bytes(64))),
        Err(ConfigError::JwtSecretTooShort)
    ));
    assert!(matches!(
        SecretMaterial::load(Some(Vec::new()), Some(bytes(64))),
        Err(ConfigError::JwtSecretTooShort)
    ));
}

#[test]
fn boot_fails_without_cookie_secret() {
    assert!(matches!(
        SecretMaterial::load(Some(bytes(32)), None),
        Err(ConfigError::MissingCookieSecret)
    ));
}

#[test]
fn boot_fails_on_short_cookie_secret() {
    assert!(matches!(
        SecretMaterial::load(Some(bytes(32)), Some(bytes(63))),
        Err(ConfigError::CookieSecretTooShort)
    ));
}

#[test]
fn minimum_lengths_boot() {
    let m = SecretMaterial::load(Some(bytes(32)), Some(bytes(64))).expect("material loads");
    assert_eq!(m.session_secret.len(), 32);
    assert_eq!(m.cookie_key.len(), 64);
}

#[test]
fn material_keeps_the_bytes_it_was_given() {
    let jwt: Vec<u8> = (0..40u8).collect();
    let cookie: Vec<u8> = (0..80u8).collect();
    let m = SecretMaterial::load(Some(jwt.clone()), Some(cookie.clone())).expect("material loads");
    assert_eq!(m.session_secret, jwt);
    assert_eq!(m.cookie_key, cookie);
    assert_eq!(m.session_secret(), &jwt);
    assert_eq!(m.cookie_key(), &cookie);
}

#[test]
fn jwt_secret_is_checked_first() {
    assert!(matches!(
        SecretMaterial::load(None, None),
        Err(ConfigError::MissingJwtSecret)
    ));
    assert!(matches!(
        SecretMaterial::load(Some(bytes(10)), None),
        Err(ConfigError::JwtSecretTooShort)
    ));
}
