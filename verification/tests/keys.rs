use argon2::{Algorithm, Argon2, Params, Version};
use base64::engine::general_purpose::STANDARD;
use base64::Engine;
use storify_profiles::keys::auto_password_input;
use storify_profiles::{
    derive_auto_password, derive_master_key, generate_salt, resolve_master_password,
    EncryptionMetadata, Error, SecretString, SystemContext,
};

fn context(user: Option<&str>, username: Option<&str>) -> SystemContext {
    SystemContext {
        user: user.map(|s| s.to_string()),
        username: username.map(|s| s.to_string()),
    }
}

fn secret(text: &str) -> SecretString {
    SecretString::new(text.to_string())
}

#[test]
fn derived_keys_are_argon2id() {
    let salt = [7u8; 16];
    let params = Params::new(19456, 2, 1, Some(32)).unwrap();
    let mut expected = [0u8; 32];
    Argon2::new(Algorithm::Argon2id, Version::V0x13, params)
        .hash_password_into(b"correct horse", &salt, &mut expected)
        .unwrap();
    let key = derive_master_key(&secret("correct horse"), &salt).unwrap();
    assert_eq!(key, expected);
    assert_ne!(key, derive_master_key(&secret("correct horse"), &[8u8; 16]).unwrap());
    assert_ne!(key, derive_master_key(&secret("battery staple"), &salt).unwrap());
}

#[test]
fn short_salts_give_no_key() {
    match derive_master_key(&secret("pw"), &[1u8; 7]) {
        Err(Error::ProfileEncryption { message }) => {
            assert_eq!(message, "failed to derive master key: salt is too short");
        }
        _ => panic!("a key was derived"),
    }
    assert!(derive_master_key(&secret("pw"), &[1u8; 8]).is_ok());
    assert!(derive_master_key(&secret(""), &[1u8; 8]).is_ok());
}

#[test]
fn account_names() {
    assert_eq!(context(Some("ann"), Some("bob")).account(), Some("ann"));
    assert_eq!(context(None, Some("bob")).account(), Some("bob"));
    assert_eq!(context(Some(""), Some("bob")).account(), Some(""));
    assert_eq!(context(None, None).account(), None);
}

#[test]
fn inputs_of_automatic_passwords() {
    assert_eq!(
        auto_password_input(Some("ann"), "/home/ann/p.toml"),
        "ann::/home/ann/p.toml::storify-auto-encryption-v1"
    );
    assert_eq!(auto_password_input(None, "p"), "p::storify-auto-encryption-v1");
}

#[test]
fn automatic_passwords_are_keyed_hashes() {
    let context_key = blake3::hash(b"storify-kdf-context-8964");
    let hash = blake3::keyed_hash(
        context_key.as_bytes(),
        b"ann::/home/ann/p.toml::storify-auto-encryption-v1",
    );
    let password = derive_auto_password("/home/ann/p.toml", &context(Some("ann"), None));
    assert_eq!(password.expose_secret(), STANDARD.encode(hash.as_bytes()));
    assert_eq!(password.expose_secret().len(), 44);
    let other = derive_auto_password("/home/bob/p.toml", &context(Some("ann"), None));
    assert_ne!(password.expose_secret(), other.expose_secret());
}

#[test]
fn explicit_passwords_come_first() {
    let explicit = resolve_master_password(Some(secret("mine")), "p", &context(None, None));
    assert_eq!(explicit.expose_secret(), "mine");
    let automatic = resolve_master_password(None, "p", &context(None, None));
    assert_eq!(
        automatic.expose_secret(),
        derive_auto_password("p", &context(None, None)).expose_secret()
    );
}

#[test]
fn salts_are_random() {
    let one = generate_salt();
    assert_eq!(one.len(), 16);
    assert_ne!(one, generate_salt());
}

#[test]
fn metadata_holds_key_and_salt() {
    let metadata = EncryptionMetadata::new([9u8; 32], vec![1, 2, 3]);
    assert_eq!(metadata.key(), &[9u8; 32]);
    assert_eq!(metadata.salt(), &[1, 2, 3]);
    let copy = metadata.clone();
    drop(metadata);
    assert_eq!(copy.key(), &[9u8; 32]);
    assert_eq!(copy.salt(), &[1, 2, 3]);
}

#[test]
fn secrets_are_not_shown() {
    let shown = format!("{:?}", secret("hunter2"));
    assert!(!shown.contains("hunter2"));
    assert_eq!(secret("hunter2").clone().expose_secret(), "hunter2");
    let metadata = EncryptionMetadata::new([201u8; 32], vec![]);
    assert!(!format!("{:?}", metadata).contains("201"));
}
