use docmost_local_mcp::storage::keyring_store::{KeyringFailure, is_missing_entry, keyring_disabled_by, should_fallback};
use docmost_local_mcp::storage::state_store::{
    CredentialError, EncryptedPayload, StateStore, decrypt_string, encrypt_string, key_from_text, key_text, new_key,
};

#[test]
fn state_files_under_the_base_directory() {
    let store = StateStore::new("/home/jane/.docmost-local-mcp".to_string());
    assert_eq!(store.config_path, "/home/jane/.docmost-local-mcp/config.json");
    assert_eq!(store.session_path, "/home/jane/.docmost-local-mcp/session.json");
    assert_eq!(store.credentials_path, "/home/jane/.docmost-local-mcp/credentials.enc.json");
    assert_eq!(StateStore::new("/tmp/x/".to_string()).key_path, "/tmp/x/credentials.key");
}

#[test]
fn sealed_credentials_open_to_the_same_text() {
    let key = [7u8; 32];
    let text = "{\"email\":\"jane@example.com\",\"password\":\"super-secret\"}";
    let payload = encrypt_string(text, &key).unwrap();
    assert_eq!(decrypt_string(&payload, &key).unwrap(), text);
    let other = [8u8; 32];
    assert_eq!(decrypt_string(&payload, &other).unwrap_err(), CredentialError::DecryptFailed);
    assert_eq!(encrypt_string(text, &[1u8; 16]).unwrap_err(), CredentialError::BadKey);
    let broken = EncryptedPayload { iv: "%%%".to_string(), tag: payload.tag.clone(), ciphertext: payload.ciphertext.clone() };
    assert_eq!(decrypt_string(&broken, &key).unwrap_err(), CredentialError::BadIv);
    assert_eq!(CredentialError::DecryptFailed.message(), "Failed to decrypt credentials");
}

#[test]
fn keyring_switch_and_failures() {
    assert!(keyring_disabled_by(Some("1")));
    assert!(keyring_disabled_by(Some("true")));
    assert!(!keyring_disabled_by(Some("yes")));
    assert!(!keyring_disabled_by(None));
    assert!(should_fallback(KeyringFailure::NoStorageAccess));
    assert!(!should_fallback(KeyringFailure::Other));
    assert!(is_missing_entry(KeyringFailure::NoEntry));
}

#[test]
fn key_file_text_round_trips() {
    assert_eq!(key_text(&[0u8, 1, 2]), "AAEC");
    assert_eq!(key_from_text(" AAEC\n"), Some(vec![0u8, 1, 2]));
    assert_eq!(key_from_text("not base64!"), None);
    let key = new_key();
    assert_eq!(key.len(), 32);
    assert_eq!(key_from_text(&key_text(&key)), Some(key.clone()));
    let sealed = encrypt_string("secret", &key_from_text(&key_text(&key)).unwrap()).unwrap();
    assert_eq!(decrypt_string(&sealed, &key).unwrap(), "secret");
}
