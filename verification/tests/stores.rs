use storify_profiles::sealing::{
    decrypt_all_profiles, decrypt_sensitive_field, encrypt_all_profiles, extract_salt_from_profiles,
};
use storify_profiles::{
    decrypt_field_with_salt, derive_master_key, encrypt_field, Error, Opening, PathState,
    ProfileStore, ProfileStoreFile, ProfileStoreOpenOptions, Profiles, SecretString, StoredProfile,
    SystemContext,
};

const KEY: [u8; 32] = [5u8; 32];
const SALT: [u8; 16] = [6u8; 16];

fn profile(id: Option<&str>, secret: Option<&str>) -> StoredProfile {
    StoredProfile {
        provider: "s3".to_string(),
        bucket: "bucket".to_string(),
        access_key_id: id.map(|s| s.to_string()),
        access_key_secret: secret.map(|s| s.to_string()),
        endpoint: None,
        region: Some("eu".to_string()),
        root_path: None,
        name_node: None,
        anonymous: false,
    }
}

fn context() -> SystemContext {
    SystemContext { user: Some("ann".to_string()), username: None }
}

fn password(text: &str) -> SecretString {
    SecretString::new(text.to_string())
}

fn store() -> ProfileStore {
    ProfileStore::create_with_salt("/p".to_string(), &password("pw"), SALT).unwrap()
}

fn decryption_message<T>(result: Result<T, Error>) -> String {
    match result {
        Err(Error::ProfileDecryption { message }) => message,
        Err(other) => panic!("another error: {:?}", other),
        Ok(_) => panic!("no error"),
    }
}

#[test]
fn first_credential_embeds_the_salt() {
    let mut profiles = Profiles::new();
    profiles.insert("b".to_string(), profile(None, Some("secret b")));
    profiles.insert("a".to_string(), profile(None, None));
    profiles.insert("c".to_string(), profile(Some("id c"), Some("secret c")));
    let plain = profiles.clone();
    encrypt_all_profiles(&mut profiles, &KEY, &SALT).unwrap();

    assert_eq!(profiles.names(), plain.names());
    assert_eq!(profiles.get("a"), plain.get("a"));
    let first = profiles.get("b").unwrap().access_key_secret.clone().unwrap();
    assert!(first.starts_with("ENC:v1:"));
    assert_eq!(
        decrypt_field_with_salt(&first, &KEY).unwrap(),
        Some((SALT.to_vec(), "secret b".to_string()))
    );
    assert_eq!(profiles.get("b").unwrap().access_key_id, None);
    for field in [
        profiles.get("c").unwrap().access_key_id.clone().unwrap(),
        profiles.get("c").unwrap().access_key_secret.clone().unwrap(),
    ] {
        assert!(field.starts_with("ENC:"));
        assert!(!field.starts_with("ENC:v1:"));
    }
    assert_eq!(profiles.get("c").unwrap().region, Some("eu".to_string()));

    assert_eq!(extract_salt_from_profiles(&profiles).unwrap(), SALT.to_vec());
    let opened = decrypt_all_profiles(profiles, &KEY).unwrap();
    assert_eq!(opened.names(), plain.names());
    for name in ["a", "b", "c"] {
        assert_eq!(opened.get(name), plain.get(name));
    }
}

#[test]
fn both_credentials_of_one_profile() {
    let mut profiles = Profiles::new();
    profiles.insert("a".to_string(), profile(Some("id"), Some("secret")));
    encrypt_all_profiles(&mut profiles, &KEY, &SALT).unwrap();
    let sealed = profiles.get("a").unwrap();
    assert!(sealed.access_key_id.clone().unwrap().starts_with("ENC:v1:"));
    assert!(!sealed.access_key_secret.clone().unwrap().starts_with("ENC:v1:"));
}

#[test]
fn no_profiles_to_encrypt() {
    let mut profiles = Profiles::new();
    encrypt_all_profiles(&mut profiles, &KEY, &SALT).unwrap();
    assert_eq!(profiles.len(), 0);
}

#[test]
fn credentials_are_decrypted_in_place() {
    let mut field = Some(encrypt_field("id", &KEY).unwrap());
    decrypt_sensitive_field(&mut field, &KEY).unwrap();
    assert_eq!(field, Some("id".to_string()));

    let mut plain = Some("id".to_string());
    decrypt_sensitive_field(&mut plain, &KEY).unwrap();
    assert_eq!(plain, None);

    let mut absent = None;
    decrypt_sensitive_field(&mut absent, &KEY).unwrap();
    assert_eq!(absent, None);

    let mut broken = Some("ENC:v1:x".to_string());
    assert!(decrypt_sensitive_field(&mut broken, &KEY).is_err());
    assert_eq!(broken, Some("ENC:v1:x".to_string()));
}

#[test]
fn salts_are_looked_for_in_order() {
    let mut profiles = Profiles::new();
    profiles.insert("a".to_string(), profile(Some("plain"), Some("ENC:AAAA")));
    profiles.insert("b".to_string(), profile(None, Some("ENC:v1:c2FsdCBvbmU=:x")));
    profiles.insert("c".to_string(), profile(Some("ENC:v1:c2FsdCB0d28=:x"), None));
    assert_eq!(extract_salt_from_profiles(&profiles).unwrap(), b"salt one".to_vec());
    profiles.insert("aa".to_string(), profile(Some("ENC:v1:broken"), None));
    assert_eq!(
        decryption_message(extract_salt_from_profiles(&profiles)),
        "invalid salt-embedded format: expected 'ENC:v1:salt:ciphertext'"
    );
    assert_eq!(
        decryption_message(extract_salt_from_profiles(&Profiles::new())),
        "no encrypted fields found with embedded salt (expected format: ENC:v1:salt:ciphertext)"
    );
}

#[test]
fn unknown_defaults_are_dropped() {
    let mut file = ProfileStoreFile::default();
    file.default = Some("a".to_string());
    file.normalize_default();
    assert_eq!(file.default, None);
    file.profiles.insert("a".to_string(), profile(None, None));
    file.default = Some("a".to_string());
    file.normalize_default();
    assert_eq!(file.default, Some("a".to_string()));
}

#[test]
fn saving_and_finding_profiles() {
    let mut store = store();
    assert_eq!(store.path(), "/p");
    assert!(store.available_profiles().is_empty());
    store.save_profile("b".to_string(), profile(Some("id"), None), false).unwrap();
    store.save_profile("a".to_string(), profile(None, Some("secret")), true).unwrap();
    assert_eq!(store.available_profiles(), vec!["a", "b"]);
    assert_eq!(store.default_profile(), Some("a"));
    assert_eq!(store.profile("b"), Some(&profile(Some("id"), None)));
    assert_eq!(store.get_profile("a").unwrap(), profile(None, Some("secret")));
    assert!(store.profile("c").is_none());
    match store.get_profile("c") {
        Err(Error::ProfileNotFound { name }) => assert_eq!(name, "c"),
        _ => panic!("found"),
    }
    store.save_profile("a".to_string(), profile(None, None), false).unwrap();
    assert_eq!(store.default_profile(), Some("a"));
    assert_eq!(store.get_profile("a").unwrap(), profile(None, None));
}

#[test]
fn deleting_profiles() {
    let mut store = store();
    store.save_profile("a".to_string(), profile(Some("1"), None), true).unwrap();
    store.save_profile("b".to_string(), profile(Some("2"), None), false).unwrap();
    match store.delete_profile("c") {
        Err(Error::ProfileNotFound { name }) => assert_eq!(name, "c"),
        _ => panic!("deleted"),
    }
    assert_eq!(store.available_profiles(), vec!["a", "b"]);
    let payload = store.delete_profile("b").unwrap();
    assert_eq!(store.default_profile(), Some("a"));
    assert_eq!(payload.profiles.names(), vec!["a"]);
    let payload = store.delete_profile("a").unwrap();
    assert_eq!(store.default_profile(), None);
    assert_eq!(payload.default, None);
    assert_eq!(payload.profiles.len(), 0);
}

#[test]
fn choosing_the_default_profile() {
    let mut store = store();
    store.save_profile("a".to_string(), profile(Some("1"), None), false).unwrap();
    assert_eq!(store.default_profile(), None);
    match store.set_default_profile(Some("b".to_string())) {
        Err(Error::ProfileNotFound { name }) => assert_eq!(name, "b"),
        _ => panic!("set"),
    }
    assert_eq!(store.default_profile(), None);
    let payload = store.set_default_profile(Some("a".to_string())).unwrap();
    assert_eq!(payload.default, Some("a".to_string()));
    assert_eq!(store.default_profile(), Some("a"));
    store.set_default_profile(None).unwrap();
    assert_eq!(store.default_profile(), None);
}

#[test]
fn written_stores_are_restored() {
    let mut store = store();
    store.save_profile("a".to_string(), profile(None, None), false).unwrap();
    let payload = store
        .save_profile("b".to_string(), profile(Some("id"), Some("secret")), true)
        .unwrap();
    assert_ne!(payload.profiles.get("b"), store.profile("b"));

    let restored = ProfileStore::restore("/p".to_string(), payload.clone(), &password("pw")).unwrap();
    assert_eq!(restored.available_profiles(), store.available_profiles());
    assert_eq!(restored.default_profile(), Some("b"));
    assert_eq!(restored.profile("a"), store.profile("a"));
    assert_eq!(restored.profile("b"), store.profile("b"));

    let key = derive_master_key(&password("pw"), &SALT).unwrap();
    let with_key =
        ProfileStore::restore_with_key("/p".to_string(), payload.clone(), key, SALT.to_vec()).unwrap();
    assert_eq!(with_key.profile("b"), store.profile("b"));

    assert_eq!(
        decryption_message(ProfileStore::restore("/p".to_string(), payload, &password("other"))),
        "field decryption failed: aead::Error"
    );
}

#[test]
fn files_do_not_keep_who_is_anonymous() {
    let mut store = store();
    let mut anonymous = profile(Some("id"), None);
    anonymous.anonymous = true;
    let mut payload = store.save_profile("a".to_string(), anonymous, true).unwrap();
    let mut read_back = payload.profiles.get("a").unwrap().clone();
    assert!(read_back.anonymous);
    read_back.anonymous = false;
    payload.profiles.insert("a".to_string(), read_back);
    let restored = ProfileStore::restore("/p".to_string(), payload, &password("pw")).unwrap();
    assert_eq!(restored.get_profile("a").unwrap(), profile(Some("id"), None));
    assert_eq!(restored.default_profile(), Some("a"));
}

#[test]
fn stores_without_credentials_are_not_restored() {
    let mut store = store();
    let payload = store.save_profile("a".to_string(), profile(None, None), false).unwrap();
    assert_eq!(
        decryption_message(ProfileStore::restore("/p".to_string(), payload, &password("pw"))),
        "no encrypted fields found with embedded salt (expected format: ENC:v1:salt:ciphertext)"
    );
}

#[test]
fn short_embedded_salts_give_no_key() {
    let mut file = ProfileStoreFile::default();
    file.profiles.insert("a".to_string(), profile(Some("ENC:v1:AAAA:AAAA"), None));
    match ProfileStore::restore("/p".to_string(), file, &password("pw")) {
        Err(Error::ProfileEncryption { message }) => {
            assert_eq!(message, "failed to derive master key: salt is too short");
        }
        _ => panic!("restored"),
    }
}

#[test]
fn restoring_drops_unknown_defaults() {
    let mut store = store();
    let mut payload =
        store.save_profile("a".to_string(), profile(Some("id"), None), true).unwrap();
    payload.default = Some("gone".to_string());
    let restored = ProfileStore::restore("/p".to_string(), payload, &password("pw")).unwrap();
    assert_eq!(restored.default_profile(), None);
}

#[test]
fn changing_the_key() {
    let mut store = store();
    store.save_profile("a".to_string(), profile(Some("id"), Some("secret")), true).unwrap();
    let payload = store.set_encryption(Some(password("new")), &context()).unwrap();
    assert_ne!(extract_salt_from_profiles(&payload.profiles).unwrap(), SALT.to_vec());
    let restored = ProfileStore::restore("/p".to_string(), payload.clone(), &password("new")).unwrap();
    assert_eq!(restored.profile("a"), store.profile("a"));
    assert!(ProfileStore::restore("/p".to_string(), payload, &password("pw")).is_err());

    let mut read_back = store.get_profile("a").unwrap();
    read_back.anonymous = true;
    store.save_profile("a".to_string(), read_back, true).unwrap();
    let mut payload = store.rekey(&password("anew"), [8u8; 16]).unwrap();
    let mut sealed = payload.profiles.get("a").unwrap().clone();
    sealed.anonymous = false;
    payload.profiles.insert("a".to_string(), sealed);
    let restored = ProfileStore::restore("/p".to_string(), payload, &password("anew")).unwrap();
    assert_eq!(restored.get_profile("a").unwrap(), profile(Some("id"), Some("secret")));

    let payload = store.rekey(&password("again"), [9u8; 16]).unwrap();
    assert_eq!(extract_salt_from_profiles(&payload.profiles).unwrap(), vec![9u8; 16]);
    assert!(ProfileStore::restore("/p".to_string(), payload, &password("again")).is_ok());
}

#[test]
fn copies_of_stores_are_independent() {
    let mut store = store();
    store.save_profile("a".to_string(), profile(Some("id"), None), true).unwrap();
    let mut copy = store.clone();
    copy.delete_profile("a").unwrap();
    assert_eq!(store.available_profiles(), vec!["a"]);
    assert_eq!(store.default_profile(), Some("a"));
}

#[test]
fn opening_a_directory() {
    match ProfileStore::open_default("/p".to_string(), PathState::Directory, &context()) {
        Err(Error::ProfileStoreIo { path, message }) => {
            assert_eq!(path, "/p");
            assert_eq!(message, "profile store path points to a directory");
        }
        _ => panic!("opened"),
    }
}

#[test]
fn opening_nothing_and_an_empty_file() {
    for state in [PathState::Missing, PathState::File(vec![])] {
        match ProfileStore::open(Some("/q".to_string()), "/p".to_string(), state, &context()) {
            Ok(Opening::Ready(store)) => {
                assert_eq!(store.path(), "/q");
                assert!(store.available_profiles().is_empty());
                assert_eq!(store.default_profile(), None);
            }
            _ => panic!("not ready"),
        }
    }
}

#[test]
fn opening_a_file_that_is_not_text() {
    let state = PathState::File(vec![0xff]);
    match ProfileStore::open(None, "/p".to_string(), state, &context()) {
        Err(Error::ProfileStoreUtf8 { path, source }) => {
            assert_eq!(path, "/p");
            assert_eq!(source.as_bytes(), &[0xff]);
        }
        _ => panic!("opened"),
    }
}

#[test]
fn options_are_copied() {
    let options = ProfileStoreOpenOptions {
        path: Some("/q".to_string()),
        master_password: Some(password("pw")),
    };
    let copy = options.clone();
    assert_eq!(copy.path, options.path);
    assert_eq!(copy.master_password.unwrap().expose_secret(), "pw");
    let none = ProfileStoreOpenOptions::default().clone();
    assert!(none.path.is_none());
    assert!(none.master_password.is_none());
}

#[test]
fn opening_a_file() {
    let mut store = store();
    let payload = store.save_profile("a".to_string(), profile(Some("id"), None), true).unwrap();
    let state = PathState::File(b"text".to_vec());
    let opening = ProfileStore::open_with_password(
        None,
        Some(password("pw")),
        "/p".to_string(),
        state,
        &context(),
    );
    match opening {
        Ok(Opening::Stored(stored)) => {
            assert_eq!(stored.text(), "text");
            let restored = stored.restore(payload).unwrap();
            assert_eq!(restored.path(), "/p");
            assert_eq!(restored.profile("a"), store.profile("a"));
        }
        _ => panic!("not stored"),
    }
}

#[test]
fn automatic_passwords_depend_on_user_and_path() {
    let missing = ProfileStore::open_with_options(
        ProfileStoreOpenOptions::default(),
        "/p".to_string(),
        PathState::Missing,
        &context(),
    );
    let mut store = match missing {
        Ok(Opening::Ready(store)) => store,
        _ => panic!("not ready"),
    };
    let payload = store.save_profile("a".to_string(), profile(Some("id"), None), true).unwrap();
    let reopen = |path: &str, user: &str| {
        let context = SystemContext { user: Some(user.to_string()), username: None };
        let state = PathState::File(b"text".to_vec());
        match ProfileStore::open_default(path.to_string(), state, &context) {
            Ok(Opening::Stored(stored)) => stored.restore(payload.clone()).is_ok(),
            _ => panic!("not stored"),
        }
    };
    assert!(reopen("/p", "ann"));
    assert!(!reopen("/p", "bob"));
    assert!(!reopen("/q", "ann"));
}
