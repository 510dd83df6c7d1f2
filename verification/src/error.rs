//! What the library reports when it cannot do what it was asked.
use argon2::Error as Argon2Error;
use base64::DecodeError;
use chacha20poly1305::aead::Error as AeadError;
use std::string::FromUtf8Error;
use vstd::prelude::*;

verus! {

/// Errors of the profile store.
#[derive(Debug)]
pub enum Error {
    /// No profile has this name.
    ProfileNotFound { name: String },
    /// A credential was not encrypted, or no key was derived.
    ProfileEncryption { message: String },
    /// A stored credential was not understood or not decrypted.
    ProfileDecryption { message: String },
    /// The store's path cannot be used.
    ProfileStoreIo { path: String, message: String },
    /// The store's file is not UTF-8 text.
    ProfileStoreUtf8 { path: String, source: FromUtf8Error },
}

/// What went wrong, as contracts speak of it: `Error::reports` says how it is reported.
pub enum Fault {
    /// A field with an embedded salt has no ciphertext.
    FieldParts,
    /// A field with an embedded salt has no ciphertext, found when only the salt was looked for.
    SaltParts,
    /// An embedded salt is not base64.
    SaltEncoding(DecodeError),
    /// An encrypted field is not base64.
    FieldEncoding(DecodeError),
    /// An encrypted field of this many bytes has no room for its nonce.
    FieldLength(nat),
    /// An encrypted field is longer than the cipher takes.
    FieldOverlong,
    /// An encrypted field is not authentic under the key.
    FieldOpening(AeadError),
    /// An encrypted field does not hold UTF-8.
    FieldText(FromUtf8Error),
    /// No field has an embedded salt.
    NoSalt,
    /// A field is longer than the cipher or the memory takes.
    PlaintextOverlong,
    /// A field was not encrypted.
    FieldSealing(AeadError),
    /// The key derivation refused its costs.
    KeyCosts(Argon2Error),
    /// The key derivation refused the password or the salt.
    KeyInputs(Argon2Error),
}

/// `message` is `intro` followed by what `source` displays.
pub open spec fn quotes<T: core::fmt::Display>(message: Seq<char>, intro: Seq<char>, source: T) -> bool {
    exists|shown: String|
        #[trigger] vstd::string::to_string_from_display_ensures(&source, shown) && message == intro
            + shown@
}

/// `intro` followed by what `source` displays.
pub(crate) fn quote<T: core::fmt::Display>(intro: &str, source: T) -> (message: String)
    ensures
        quotes(message@, intro@, source),
{
    let shown = source.to_string();
    intro.to_string().concat(shown.as_str())
}

impl Error {
    /// This error is how the library reports `fault`.
    pub open spec fn reports(self, fault: Fault) -> bool {
        match fault {
            Fault::FieldParts => self matches Error::ProfileDecryption { message } && message@
                == "invalid encrypted field format: expected 'v1:salt:ciphertext'"@,
            Fault::SaltParts => self matches Error::ProfileDecryption { message } && message@
                == "invalid salt-embedded format: expected 'ENC:v1:salt:ciphertext'"@,
            Fault::SaltEncoding(err) => self matches Error::ProfileDecryption { message } && quotes(
                message@,
                "invalid base64 in salt: "@,
                err,
            ),
            Fault::FieldEncoding(err) => self matches Error::ProfileDecryption { message } && quotes(
                message@,
                "invalid base64 in encrypted field: "@,
                err,
            ),
            Fault::FieldLength(len) => self matches Error::ProfileDecryption { message } && message@
                == "encrypted field too short: expected at least 12 bytes, got "@
                + crate::text::decimal_text(len),
            Fault::FieldOverlong => self matches Error::ProfileDecryption { message } && message@
                == "field decryption failed: aead::Error"@,
            Fault::FieldOpening(err) => self matches Error::ProfileDecryption { message } && quotes(
                message@,
                "field decryption failed: "@,
                err,
            ),
            Fault::FieldText(err) => self matches Error::ProfileDecryption { message } && quotes(
                message@,
                "decrypted field is not valid UTF-8: "@,
                err,
            ),
            Fault::NoSalt => self matches Error::ProfileDecryption { message } && message@
                == "no encrypted fields found with embedded salt (expected format: ENC:v1:salt:ciphertext)"@,
            Fault::PlaintextOverlong => self matches Error::ProfileEncryption { message } && message@
                == "field encryption failed: aead::Error"@,
            Fault::FieldSealing(err) => self matches Error::ProfileEncryption { message } && quotes(
                message@,
                "field encryption failed: "@,
                err,
            ),
            Fault::KeyCosts(err) => self matches Error::ProfileEncryption { message } && quotes(
                message@,
                "invalid argon2 parameters: "@,
                err,
            ),
            Fault::KeyInputs(err) => self matches Error::ProfileEncryption { message } && quotes(
                message@,
                "failed to derive master key: "@,
                err,
            ),
        }
    }
}

} // verus!
