use base64::engine::general_purpose::STANDARD;
use base64::Engine;
use storify_profiles::crypto::{
    bare_field, field_form, join_payload, salted_field, seal_field, seal_field_with_salt,
    split_payload, text_from_opened, FieldForm, FIELD_SALTED_PREFIX, KEY_SIZE, NONCE_SIZE,
};
use storify_profiles::{
    decrypt_field, decrypt_field_auto, decrypt_field_with_salt, encrypt_field,
    encrypt_field_with_salt, extract_salt, Error, FIELD_ENCRYPTED_PREFIX,
};

fn key() -> [u8; KEY_SIZE] {
    let mut key = [0u8; KEY_SIZE];
    for i in 0..KEY_SIZE {
        key[i] = i as u8;
    }
    key
}

fn nonce() -> [u8; NONCE_SIZE] {
    let mut nonce = [0u8; NONCE_SIZE];
    for i in 0..NONCE_SIZE {
        nonce[i] = i as u8;
    }
    nonce
}

fn decryption_message<T>(result: Result<T, Error>) -> String {
    match result {
        Err(Error::ProfileDecryption { message }) => message,
        Err(other) => panic!("another error: {:?}", other),
        Ok(_) => panic!("no error"),
    }
}

const SEALED: &str = "ENC:AAECAwQFBgcICQoLyLBBQWxP5A3nz3pwZWs9BLBt6imyYGjGbOYF";
const SEALED_WITH_SALT: &str = "ENC:v1:U1NTU1NTU1NTU1NTU1NTUw==:AAECAwQFBgcICQoLyLBBQWxP5A3nz3pwZWs9BLBt6imyYGjGbOYF";

#[test]
fn prefixes() {
    assert_eq!(FIELD_ENCRYPTED_PREFIX, "ENC:");
    assert_eq!(FIELD_SALTED_PREFIX, "ENC:v1:");
}

#[test]
fn forms_of_fields() {
    assert!(matches!(field_form("AKIA"), FieldForm::Plain));
    assert!(matches!(field_form(""), FieldForm::Plain));
    assert!(matches!(field_form("enc:abc"), FieldForm::Plain));
    assert!(matches!(field_form("ENC:"), FieldForm::Bare("")));
    assert!(matches!(field_form("ENC:abc"), FieldForm::Bare("abc")));
    assert!(matches!(field_form("ENC:v1"), FieldForm::Bare("v1")));
    assert!(matches!(field_form("ENC:v1:"), FieldForm::Incomplete));
    assert!(matches!(field_form("ENC:v1:abc"), FieldForm::Incomplete));
    assert!(matches!(field_form("ENC:v1:a:b"), FieldForm::Salted("a", "b")));
    assert!(matches!(field_form("ENC:v1::"), FieldForm::Salted("", "")));
    assert!(matches!(field_form("ENC:v1:a:b:c"), FieldForm::Salted("a", "b:c")));
    assert!(matches!(field_form("ENC:v1:\u{e9}:b"), FieldForm::Salted("\u{e9}", "b")));
}

#[test]
fn written_forms_are_read_back() {
    let bare = bare_field("cGF5bG9hZA==");
    assert_eq!(bare, "ENC:cGF5bG9hZA==");
    assert!(matches!(field_form(&bare), FieldForm::Bare("cGF5bG9hZA==")));
    let salted = salted_field("c2FsdA==", "cGF5bG9hZA==");
    assert_eq!(salted, "ENC:v1:c2FsdA==:cGF5bG9hZA==");
    assert!(matches!(field_form(&salted), FieldForm::Salted("c2FsdA==", "cGF5bG9hZA==")));
}

#[test]
fn sealing_under_a_known_nonce() {
    assert_eq!(seal_field("AKIAEXAMPLE", &key(), &nonce()).unwrap(), SEALED);
    assert_eq!(
        seal_field("", &key(), &nonce()).unwrap(),
        "ENC:AAECAwQFBgcICQoLKVpJi4hBocX1XU1gb3MRWQ=="
    );
    assert_eq!(
        seal_field("cl\u{e9} secr\u{e8}te", &key(), &nonce()).unwrap(),
        "ENC:AAECAwQFBgcICQoL6pfLqQlkwCPFQJeH/UFu6yUy23ECRVIO0khJoSc="
    );
    assert_eq!(
        seal_field_with_salt("AKIAEXAMPLE", &key(), &nonce(), &[0x53; 16]).unwrap(),
        SEALED_WITH_SALT
    );
}

#[test]
fn decrypting_known_fields() {
    assert_eq!(decrypt_field(SEALED, &key()).unwrap(), Some("AKIAEXAMPLE".to_string()));
    assert_eq!(decrypt_field_auto(SEALED, &key()).unwrap(), Some("AKIAEXAMPLE".to_string()));
    assert_eq!(decrypt_field_with_salt(SEALED, &key()).unwrap(), None);
    assert_eq!(extract_salt(SEALED).unwrap(), None);

    assert_eq!(
        decrypt_field_with_salt(SEALED_WITH_SALT, &key()).unwrap(),
        Some((vec![0x53; 16], "AKIAEXAMPLE".to_string()))
    );
    assert_eq!(
        decrypt_field_auto(SEALED_WITH_SALT, &key()).unwrap(),
        Some("AKIAEXAMPLE".to_string())
    );
    assert_eq!(extract_salt(SEALED_WITH_SALT).unwrap(), Some(vec![0x53; 16]));
}

#[test]
fn plain_fields_hold_nothing() {
    assert_eq!(decrypt_field("AKIAEXAMPLE", &key()).unwrap(), None);
    assert_eq!(decrypt_field_with_salt("AKIAEXAMPLE", &key()).unwrap(), None);
    assert_eq!(decrypt_field_auto("AKIAEXAMPLE", &key()).unwrap(), None);
    assert_eq!(extract_salt("AKIAEXAMPLE").unwrap(), None);
}

#[test]
fn encrypted_fields_read_back() {
    for plaintext in ["", "a", "AKIAEXAMPLE", "cl\u{e9}:v1:\u{1f511}"] {
        let field = encrypt_field(plaintext, &key()).unwrap();
        assert!(field.starts_with("ENC:"));
        assert!(!field.starts_with("ENC:v1:"));
        assert_eq!(decrypt_field(&field, &key()).unwrap(), Some(plaintext.to_string()));
        assert_eq!(decrypt_field_auto(&field, &key()).unwrap(), Some(plaintext.to_string()));
        assert_eq!(extract_salt(&field).unwrap(), None);

        let salted = encrypt_field_with_salt(plaintext, &key(), b"some salt").unwrap();
        assert!(salted.starts_with("ENC:v1:c29tZSBzYWx0:"));
        assert_eq!(
            decrypt_field_with_salt(&salted, &key()).unwrap(),
            Some((b"some salt".to_vec(), plaintext.to_string()))
        );
        assert_eq!(decrypt_field_auto(&salted, &key()).unwrap(), Some(plaintext.to_string()));
        assert_eq!(extract_salt(&salted).unwrap(), Some(b"some salt".to_vec()));
    }
}

#[test]
fn lengths_of_encrypted_fields() {
    for (plaintext, encoded_len) in [("", 40), ("a", 40), ("ab", 40), ("abc", 44), ("\u{e9}\u{e9}", 44)] {
        let field = encrypt_field(plaintext, &key()).unwrap();
        assert_eq!(field.len(), 4 + encoded_len);
        assert_eq!(field.matches(':').count(), 1);
        let salted = encrypt_field_with_salt(plaintext, &key(), &[0x53; 16]).unwrap();
        assert_eq!(salted.len(), 7 + 24 + 1 + encoded_len);
        assert_eq!(salted.matches(':').count(), 3);
    }
}

#[test]
fn salted_fields_are_refused_without_their_salt() {
    let salted = encrypt_field_with_salt("AKIAEXAMPLE", &key(), b"some salt").unwrap();
    assert_eq!(
        decryption_message(decrypt_field(&salted, &key())),
        "invalid base64 in encrypted field: Invalid symbol 58, offset 2."
    );
}

#[test]
fn only_one_text_of_a_payload_is_read() {
    // The last symbols differ from those of a field that is read in bits that belong to no byte.
    assert_eq!(
        decryption_message(decrypt_field("ENC:AAECAwQFBgcICQoLKVpJi4hBocX1XU1gb3MRWR==", &key())),
        "invalid base64 in encrypted field: Invalid last symbol 82, offset 37."
    );
    assert_eq!(
        decryption_message(decrypt_field("ENC:AAECAwQFBgcICQoLKVpJi4hBocX1XU1gb3MRWQ", &key())),
        "invalid base64 in encrypted field: Invalid padding"
    );
    assert_eq!(
        decryption_message(extract_salt("ENC:v1:U1NTU1NTU1NTU1NTU1NTUx==:AAAA")),
        "invalid base64 in salt: Invalid last symbol 120, offset 21."
    );
}

#[test]
fn field_without_room_for_a_tag() {
    for len in [12, 27] {
        let encoded = STANDARD.encode(vec![7u8; len]);
        assert_eq!(
            decryption_message(decrypt_field(&format!("ENC:{}", encoded), &key())),
            "field decryption failed: aead::Error"
        );
        let salted = format!("ENC:v1:c2FsdA==:{}", encoded);
        assert_eq!(
            decryption_message(decrypt_field_with_salt(&salted, &key())),
            "field decryption failed: aead::Error"
        );
        assert_eq!(
            decryption_message(decrypt_field_auto(&salted, &key())),
            "field decryption failed: aead::Error"
        );
    }
}

#[test]
fn nonces_differ() {
    let one = encrypt_field("AKIAEXAMPLE", &key()).unwrap();
    let two = encrypt_field("AKIAEXAMPLE", &key()).unwrap();
    assert_ne!(one, two);
}

#[test]
fn field_that_is_not_base64() {
    assert_eq!(
        decryption_message(decrypt_field("ENC:a*b=", &key())),
        "invalid base64 in encrypted field: Invalid symbol 42, offset 1."
    );
    assert_eq!(
        decryption_message(decrypt_field_with_salt("ENC:v1:c2FsdA==:a*b=", &key())),
        "invalid base64 in encrypted field: Invalid symbol 42, offset 1."
    );
    // Read as a field without a salt, a salted field has colons in its payload.
    assert_eq!(
        decryption_message(decrypt_field(SEALED_WITH_SALT, &key())),
        "invalid base64 in encrypted field: Invalid symbol 58, offset 2."
    );
    assert_eq!(
        decryption_message(decrypt_field_auto("ENC:abc", &key())),
        "invalid base64 in encrypted field: Invalid padding"
    );
}

#[test]
fn salt_that_is_not_base64() {
    assert_eq!(
        decryption_message(extract_salt("ENC:v1:?:AAAA")),
        "invalid base64 in salt: Invalid symbol 63, offset 0."
    );
    assert_eq!(
        decryption_message(decrypt_field_with_salt("ENC:v1:?:?", &key())),
        "invalid base64 in salt: Invalid symbol 63, offset 0."
    );
    assert_eq!(
        decryption_message(decrypt_field_auto("ENC:v1:?:?", &key())),
        "invalid base64 in salt: Invalid symbol 63, offset 0."
    );
}

#[test]
fn salted_field_without_its_parts() {
    assert_eq!(
        decryption_message(decrypt_field_with_salt("ENC:v1:c2FsdA==", &key())),
        "invalid encrypted field format: expected 'v1:salt:ciphertext'"
    );
    assert_eq!(
        decryption_message(decrypt_field_auto("ENC:v1:c2FsdA==", &key())),
        "invalid encrypted field format: expected 'v1:salt:ciphertext'"
    );
    assert_eq!(
        decryption_message(extract_salt("ENC:v1:c2FsdA==")),
        "invalid salt-embedded format: expected 'ENC:v1:salt:ciphertext'"
    );
}

#[test]
fn field_without_room_for_a_nonce() {
    assert_eq!(
        decryption_message(decrypt_field("ENC:", &key())),
        "encrypted field too short: expected at least 12 bytes, got 0"
    );
    let eleven = format!("ENC:{}", STANDARD.encode([7u8; 11]));
    assert_eq!(
        decryption_message(decrypt_field(&eleven, &key())),
        "encrypted field too short: expected at least 12 bytes, got 11"
    );
    let salted = format!("ENC:v1:c2FsdA==:{}", STANDARD.encode([7u8; 10]));
    assert_eq!(
        decryption_message(decrypt_field_auto(&salted, &key())),
        "encrypted field too short: expected at least 12 bytes, got 10"
    );
}

#[test]
fn field_that_is_not_authentic() {
    let mut other = key();
    other[0] = 1;
    assert_eq!(
        decryption_message(decrypt_field(SEALED, &other)),
        "field decryption failed: aead::Error"
    );
    let only_nonce = format!("ENC:{}", STANDARD.encode([7u8; 12]));
    assert_eq!(
        decryption_message(decrypt_field(&only_nonce, &key())),
        "field decryption failed: aead::Error"
    );
}

#[test]
fn field_that_does_not_hold_text() {
    assert_eq!(
        decryption_message(decrypt_field("ENC:AAECAwQFBgcICQoL6ATfiNYZTuzghxlNHY0KTtZY", &key())),
        "decrypted field is not valid UTF-8: invalid utf-8 sequence of 1 bytes from index 1"
    );
}

#[test]
fn payloads_are_split_behind_the_nonce() {
    let payload = join_payload(&nonce(), &[90, 91]);
    assert_eq!(payload.len(), 14);
    let (front, back) = split_payload(&payload).unwrap();
    assert_eq!(front, &nonce()[..]);
    assert_eq!(back, &[90, 91][..]);
    assert_eq!(split_payload(&payload[..12]).unwrap().1.len(), 0);
    assert!(split_payload(&payload[..11]).is_err());
}

#[test]
fn opened_messages_are_text() {
    assert_eq!(text_from_opened(Ok(vec![97, 98])).unwrap(), "ab");
    assert!(text_from_opened(Ok(vec![0xff])).is_err());
    assert!(text_from_opened(Err(chacha20poly1305::aead::Error)).is_err());
}
