use storify_profiles::{Profiles, StorageConfig, StorageProvider, StoredProfile};

fn profile(provider: &str, bucket: &str) -> StoredProfile {
    StoredProfile {
        provider: provider.to_string(),
        bucket: bucket.to_string(),
        access_key_id: Some("id".to_string()),
        access_key_secret: None,
        endpoint: Some("https://example.org".to_string()),
        region: None,
        root_path: Some("/r".to_string()),
        name_node: None,
        anonymous: true,
    }
}

fn config() -> StorageConfig {
    StorageConfig {
        provider: StorageProvider::new("s3".to_string()),
        bucket: "b".to_string(),
        access_key_id: Some("id".to_string()),
        access_key_secret: None,
        endpoint: Some("https://example.org".to_string()),
        region: None,
        root_path: Some("/r".to_string()),
        name_node: None,
        anonymous: true,
    }
}

#[test]
fn profiles_from_configurations() {
    assert_eq!(StoredProfile::from_config(&config()), profile("s3", "b"));
    assert_eq!(config().provider.as_str(), "s3");
}

#[test]
fn configurations_from_profiles() {
    let found = profile("s3", "b").into_config(
        |name: &str| -> Result<StorageProvider, String> {
            assert_eq!(name, "s3");
            Ok(StorageProvider::new(name.to_string()))
        },
        |config| Ok(config),
    );
    assert_eq!(found, Ok(config()));
}

#[test]
fn configurations_are_prepared() {
    let found = profile("S3", "b").into_config(
        |name: &str| -> Result<StorageProvider, String> {
            Ok(StorageProvider::new(name.to_lowercase()))
        },
        |mut config| {
            assert_eq!(config.provider.as_str(), "s3");
            config.region = Some("us-east-1".to_string());
            Ok(config)
        },
    );
    assert_eq!(found.unwrap().region, Some("us-east-1".to_string()));
}

#[test]
fn first_error_is_handed_on() {
    let unknown = profile("nowhere", "b").into_config(
        |name: &str| -> Result<StorageProvider, String> { Err(format!("unknown {}", name)) },
        |_| panic!("prepared"),
    );
    assert_eq!(unknown, Err("unknown nowhere".to_string()));
    let unprepared = profile("s3", "").into_config(
        |name: &str| -> Result<StorageProvider, String> {
            Ok(StorageProvider::new(name.to_string()))
        },
        |_| Err("no bucket".to_string()),
    );
    assert_eq!(unprepared, Err("no bucket".to_string()));
}

#[test]
fn names_are_in_byte_order() {
    let mut profiles = Profiles::new();
    for name in ["b", "", "a", "ab", "B", "\u{e9}", "z", "aa"] {
        profiles.insert(name.to_string(), profile("s3", name));
    }
    assert_eq!(profiles.names(), vec!["", "B", "a", "aa", "ab", "b", "z", "\u{e9}"]);
    let mut sorted = profiles.names();
    sorted.sort();
    assert_eq!(profiles.names(), sorted);
    assert_eq!(profiles.len(), 8);
    assert_eq!(profiles.name_at(1), "B");
    assert_eq!(profiles.profile_at(1).bucket, "B");
}

#[test]
fn inserting_replaces() {
    let mut profiles = Profiles::new();
    profiles.insert("a".to_string(), profile("s3", "1"));
    profiles.insert("b".to_string(), profile("s3", "2"));
    profiles.insert("a".to_string(), profile("s3", "3"));
    assert_eq!(profiles.len(), 2);
    assert_eq!(profiles.get("a").unwrap().bucket, "3");
    assert_eq!(profiles.get("b").unwrap().bucket, "2");
    assert!(profiles.get("c").is_none());
    assert!(profiles.contains("a"));
    assert!(!profiles.contains("aa"));
}

#[test]
fn removing_undoes_inserting() {
    let mut profiles = Profiles::new();
    profiles.insert("a".to_string(), profile("s3", "1"));
    profiles.insert("b".to_string(), profile("s3", "2"));
    let copy = profiles.clone();
    profiles.insert("aa".to_string(), profile("s3", "3"));
    assert!(profiles.remove("aa"));
    assert!(!profiles.remove("aa"));
    assert_eq!(profiles.names(), copy.names());
    assert_eq!(profiles.get("a"), copy.get("a"));
    assert_eq!(profiles.get("b"), copy.get("b"));
}
