use desklab::keychain::{KeychainError, KeychainService, KEY_CLAUDE, KEY_OLLAMA, KEY_OPENAI};

#[test]
fn test_invalid_key_name() {
    let result = KeychainService::validate_key_name("invalid_key");
    assert!(result.is_err());
}

#[test]
fn invalid_key_name_is_reported() {
    assert_eq!(
        KeychainService::validate_key_name("invalid_key"),
        Err(KeychainError::InvalidKey("invalid_key".to_string()))
    );
    assert!(matches!(
        KeychainService::get_api_key("nope"),
        Err(KeychainError::InvalidKey(_))
    ));
}

#[test]
fn test_valid_key_names() {
    assert!(KeychainService::validate_key_name(KEY_CLAUDE).is_ok());
    assert!(KeychainService::validate_key_name(KEY_OPENAI).is_ok());
    assert!(KeychainService::validate_key_name(KEY_OLLAMA).is_ok());
}

#[test]
fn test_get_all_key_status() {
    let status = KeychainService::get_all_key_status();
    assert_eq!(status.len(), 7);
    let key_names: Vec<&str> = status.iter().map(|(k, _)| k.as_str()).collect();
    assert!(key_names.contains(&KEY_CLAUDE));
    assert!(key_names.contains(&KEY_OPENAI));
}
