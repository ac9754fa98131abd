use rustlab::api_keys::{
    generate_api_key, parse_token, verify_api_key, ApiKey, ApiKeyConfig, ApiKeyError,
    CreateApiKeyInput, UtcTime,
};
use rustlab::Uuid128;

fn input(config: Option<ApiKeyConfig>, expires_at: Option<UtcTime>) -> CreateApiKeyInput {
    CreateApiKeyInput {
        organization_id: Uuid128::from_bytes([7; 16]),
        name: "My First API Key".to_string(),
        expires_at,
        config,
    }
}

#[test]
fn generated_key_verifies_its_token() {
    let made = generate_api_key(input(None, None));
    assert!(made.token.starts_with("elizielx_v1_"));
    assert_eq!(made.api_key.version, 1);
    assert_eq!(made.api_key.id.len(), 36);
    assert_eq!(&made.api_key.id[14..15], "7");
    assert_eq!(made.api_key.verify(&made.token), Ok(true));
    assert!(verify_api_key(&made.api_key, &made.token));
    assert!(!made.api_key.is_expired());
}

#[test]
fn invalid_token_is_rejected() {
    let made = ApiKey::generate(input(None, None));
    assert_eq!(made.api_key.verify("invalid_token"), Err(ApiKeyError::InvalidFormat));
    assert!(!verify_api_key(&made.api_key, "invalid_token"));
}

#[test]
fn deterministic_generation_and_parse() {
    let id = Uuid128::craft_v7(0x0123_4567_89AB, 0x0ABC, 0x42);
    let at = UtcTime { secs: 1_700_000_000, nanos: 5 };
    let made = ApiKey::generate_with(input(None, None), id, [9; 32], at);
    // 52 bytes of data: 84 base32 characters, unpadded.
    assert_eq!(made.token.len(), "elizielx_v1_".len() + 84);
    assert_eq!(made.token, made.token.to_lowercase());
    assert_eq!(made.api_key.id, id.format());
    assert_eq!(made.api_key.created_at, at);
    let parsed = parse_token(&made.token).unwrap();
    assert_eq!(parsed.prefix, "elizielx");
    assert_eq!(parsed.version, 1);
    assert_eq!(parsed.uuid, id);
    assert_eq!(parsed.secret, [9; 32]);
    assert!(parsed.checksum.is_some());
    assert_eq!(made.api_key.verify_at(&made.token, at), Ok(true));
}

#[test]
fn token_without_checksum_and_other_prefix() {
    let config = ApiKeyConfig { prefix: "acme".to_string(), version: -3, include_checksum: false };
    let id = Uuid128::from_bytes([1; 16]);
    let at = UtcTime { secs: 0, nanos: 0 };
    let made = ApiKey::generate_with(input(Some(config), None), id, [2; 32], at);
    assert!(made.token.starts_with("acme_v-3_"));
    assert_eq!(made.token.len(), "acme_v-3_".len() + 77);
    let parsed = parse_token(&made.token).unwrap();
    assert_eq!(parsed.checksum, None);
    assert_eq!(parsed.version, -3);
    assert_eq!(made.api_key.verify_at(&made.token, at), Ok(true));
}

#[test]
fn verify_reports_each_mismatch() {
    let id = Uuid128::from_bytes([3; 16]);
    let at = UtcTime { secs: 100, nanos: 0 };
    let made = ApiKey::generate_with(input(None, Some(UtcTime { secs: 200, nanos: 0 })), id, [4; 32], at);
    let token = made.token.clone();
    let data = &token["elizielx_v1_".len()..];

    assert_eq!(made.api_key.verify_at(&format!("other_v1_{}", data), at), Err(ApiKeyError::InvalidPrefix));
    assert_eq!(made.api_key.verify_at(&format!("elizielx_v2_{}", data), at), Err(ApiKeyError::InvalidVersion));
    assert_eq!(made.api_key.verify_at(&format!("elizielx_x1_{}", data), at), Err(ApiKeyError::InvalidVersion));
    assert_eq!(made.api_key.verify_at(&format!("elizielx_v_{}", data), at), Err(ApiKeyError::InvalidVersion));
    assert_eq!(made.api_key.verify_at("elizielx_v1_!!", at), Err(ApiKeyError::DecodingError));
    assert_eq!(made.api_key.verify_at("elizielx_v1_aaaa", at), Err(ApiKeyError::InvalidFormat));
    assert_eq!(made.api_key.verify_at(&token, UtcTime { secs: 200, nanos: 1 }), Err(ApiKeyError::Expired));
    assert_eq!(made.api_key.verify_at(&token, UtcTime { secs: 200, nanos: 0 }), Ok(true));

    let mut tampered: Vec<char> = token.chars().collect();
    let last = tampered.len() - 10;
    tampered[last] = if tampered[last] == 'a' { 'b' } else { 'a' };
    let tampered: String = tampered.into_iter().collect();
    assert_eq!(made.api_key.verify_at(&tampered, at), Err(ApiKeyError::InvalidChecksum));

    let other = ApiKey::generate_with(input(None, None), Uuid128::from_bytes([5; 16]), [4; 32], at);
    assert_eq!(made.api_key.verify_at(&other.token, at), Ok(false));

    let mut forged = made.api_key.clone();
    forged.secret_hash = [0; 32];
    assert_eq!(forged.verify_at(&token, at), Ok(false));
}

#[test]
fn update_expiry_and_redacted() {
    let at = UtcTime { secs: 10, nanos: 0 };
    let mut key = ApiKey::generate_with(input(None, None), Uuid128::from_bytes([0; 16]), [1; 32], at).api_key;
    assert!(!key.is_expired_at(UtcTime { secs: i64::MAX, nanos: 0 }));
    let later = UtcTime { secs: 20, nanos: 0 };
    key.update_at(Some("renamed".to_string()), Some(Some(UtcTime { secs: 15, nanos: 0 })), later);
    assert_eq!(key.name, "renamed");
    assert_eq!(key.updated_at, later);
    assert_eq!(key.created_at, at);
    assert!(key.is_expired_at(later));
    assert!(!key.is_expired_at(at));
    key.update_at(None, Some(None), later);
    assert_eq!(key.expires_at, None);
    assert_eq!(key.name, "renamed");
    key.update(None, None);
    assert_eq!(key.redacted(), format!("ApiKey(id={}, name=renamed)", key.id));
}

#[test]
fn default_config_and_messages() {
    let c = ApiKeyConfig::default();
    assert_eq!(c.prefix, "elizielx");
    assert_eq!(c.version, 1);
    assert!(c.include_checksum);
    assert_eq!(ApiKeyError::Expired.message(), "API key has expired");
    assert_eq!(ApiKeyError::DecodingError.message(), "Failed to decode token");
}
