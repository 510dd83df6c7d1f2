//! Passwords, salts and the keys that are derived from them.
use crate::crypto::KEY_SIZE;
use crate::error::{Error, Fault};
use crate::outside::{KdfFailure, SecretKey, SecretString};
use vstd::prelude::*;

verus! {

/// Bytes of a fresh salt.
pub const SALT_SIZE: usize = 16;

/// Memory cost of the key derivation, in KiB.
pub const ARGON2_M_COST: u32 = 19 * 1024;

/// Passes of the key derivation.
pub const ARGON2_T_COST: u32 = 2;

/// Lanes of the key derivation.
pub const ARGON2_P_COST: u32 = 1;

impl View for SecretString {
    type V = Seq<char>;

    open spec fn view(&self) -> Seq<char> {
        crate::outside::secret_text(*self)
    }
}

impl SecretString {
    /// Takes a text as a secret.
    pub fn new(text: String) -> (secret: SecretString)
        ensures
            secret@ == text@,
    {
        crate::outside::conceal(text)
    }

    /// The text of the secret.
    pub fn expose_secret(&self) -> (text: &str)
        ensures
            text@ == self@,
    {
        crate::outside::expose(self)
    }
}

impl Clone for SecretString {
    fn clone(&self) -> (copy: SecretString)
        ensures
            copy@ == self@,
    {
        SecretString::new(self.expose_secret().to_string())
    }
}

impl View for SecretKey {
    type V = Seq<u8>;

    open spec fn view(&self) -> Seq<u8> {
        crate::outside::key_bytes(*self)
    }
}

// ---------------------------------------------------------------------------------------------
// Master passwords
// ---------------------------------------------------------------------------------------------

/// What the system says of the user: the variables `USER` and `USERNAME`, as far as they are set.
#[derive(Debug)]
pub struct SystemContext {
    pub user: Option<String>,
    pub username: Option<String>,
}

impl SystemContext {
    /// The user's name: `USER`, or else `USERNAME`.
    pub open spec fn account_name(self) -> Option<Seq<char>> {
        match (self.user, self.username) {
            (Some(user), _) => Some(user@),
            (None, Some(username)) => Some(username@),
            (None, None) => None,
        }
    }

    /// The user's name: `USER`, or else `USERNAME`.
    pub fn account(&self) -> (name: Option<&str>)
        ensures
            match name {
                Some(name) => self.account_name() == Some(name@),
                None => self.account_name() is None,
            },
    {
        if let Some(user) = &self.user {
            return Some(user.as_str());
        }
        match &self.username {
            Some(username) => Some(username.as_str()),
            None => None,
        }
    }
}

/// What the automatic password of a store is made from: the user's name, where there is one, the
/// store's path and a fixed label.
pub open spec fn auto_password_context(account: Option<Seq<char>>, config_path: Seq<char>) -> Seq<
    char,
> {
    let start = match account {
        Some(name) => name + "::"@,
        None => Seq::<char>::empty(),
    };
    start + config_path + "::"@ + "storify-auto-encryption-v1"@
}

/// The automatic password of a store: the base64 text of a keyed hash of its context.
pub open spec fn auto_password(account: Option<Seq<char>>, config_path: Seq<char>) -> Seq<char> {
    crate::outside::base64_text(
        crate::outside::blake3_keyed_digest(
            crate::outside::blake3_digest(vstd::utf8::encode_utf8("storify-kdf-context-8964"@)),
            vstd::utf8::encode_utf8(auto_password_context(account, config_path)),
        ),
    )
}

/// The text that the automatic password is hashed from.
pub fn auto_password_input(account: Option<&str>, config_path: &str) -> (combined: String)
    ensures
        combined@ == auto_password_context(
            match account {
                Some(name) => Some(name@),
                None => None,
            },
            config_path@,
        ),
{
    let start = match account {
        Some(name) => name.to_string().concat("::"),
        None => String::new(),
    };
    start.concat(config_path).concat("::").concat("storify-auto-encryption-v1")
}

/// Derives the automatic password of a store from the user's name and the store's path.
pub fn derive_auto_password(config_path: &str, context: &SystemContext) -> (password: SecretString)
    ensures
        password@ == auto_password(context.account_name(), config_path@),
        password@.len() == 44,
        crate::outside::base64_symbols(password@),
{
    let combined = auto_password_input(context.account(), config_path);
    let context_key = crate::outside::blake3_hash("storify-kdf-context-8964".as_bytes());
    let hash = crate::outside::blake3_keyed_hash(&context_key, combined.as_str().as_bytes());
    SecretString::new(crate::outside::base64_encode(&hash))
}

/// The master password of a store: the explicit one, or else the automatic one.
pub open spec fn resolved_password(
    explicit: Option<SecretString>,
    config_path: Seq<char>,
    context: SystemContext,
) -> Seq<char> {
    match explicit {
        Some(secret) => secret@,
        None => auto_password(context.account_name(), config_path),
    }
}

/// Resolves the master password of a store: the explicit one, or else the automatic one.
pub fn resolve_master_password(
    explicit: Option<SecretString>,
    config_path: &str,
    context: &SystemContext,
) -> (password: SecretString)
    ensures
        password@ == resolved_password(explicit, config_path@, *context),
        explicit matches Some(secret) ==> password@ == secret@,
        explicit is None ==> password@ == auto_password(context.account_name(), config_path@),
{
    match explicit {
        Some(secret) => secret,
        None => derive_auto_password(config_path, context),
    }
}

// ---------------------------------------------------------------------------------------------
// Keys
// ---------------------------------------------------------------------------------------------

/// The key that Argon2id derives from a master password and a salt, or why there is none.
pub open spec fn master_key(password: Seq<char>, salt: Seq<u8>) -> Result<Seq<u8>, Fault> {
    match crate::outside::argon2id_derived(
        vstd::utf8::encode_utf8(password),
        salt,
        ARGON2_M_COST,
        ARGON2_T_COST,
        ARGON2_P_COST,
    ) {
        Ok(key) => Ok(key),
        Err(KdfFailure::Costs(err)) => Err(Fault::KeyCosts(err)),
        Err(KdfFailure::Inputs(err)) => Err(Fault::KeyInputs(err)),
    }
}

/// A master password and a salt of lengths from which a key is derived: neither has more bytes than
/// 32 bits count, and the salt has at least eight.
pub open spec fn key_derivable(password: Seq<char>, salt: Seq<u8>) -> bool {
    &&& vstd::utf8::encode_utf8(password).len() <= 0xFFFF_FFFF
    &&& 8 <= salt.len() <= 0xFFFF_FFFF
}

/// A key, given how it was derived.
pub fn key_from_derived(derived: Result<[u8; KEY_SIZE], KdfFailure>) -> (key: Result<
    [u8; KEY_SIZE],
    Error,
>)
    ensures
        match derived {
            Ok(bytes) => key matches Ok(found) && found@ == bytes@,
            Err(KdfFailure::Costs(err)) => key matches Err(found) && found.reports(
                Fault::KeyCosts(err),
            ),
            Err(KdfFailure::Inputs(err)) => key matches Err(found) && found.reports(
                Fault::KeyInputs(err),
            ),
        },
{
    match derived {
        Ok(key) => Ok(key),
        Err(KdfFailure::Costs(err)) => Err(
            Error::ProfileEncryption {
                message: crate::error::quote("invalid argon2 parameters: ", err),
            },
        ),
        Err(KdfFailure::Inputs(err)) => Err(
            Error::ProfileEncryption {
                message: crate::error::quote("failed to derive master key: ", err),
            },
        ),
    }
}

/// Deriving a key ended as `model` says.
pub open spec fn key_outcome(
    result: Result<[u8; KEY_SIZE], Error>,
    model: Result<Seq<u8>, Fault>,
) -> bool {
    match (result, model) {
        (Ok(key), Ok(expected)) => key@ == expected,
        (Err(err), Err(fault)) => err.reports(fault),
        _ => false,
    }
}

/// Derives the encryption key from the master password, with Argon2id.
pub fn derive_master_key(password: &SecretString, salt: &[u8]) -> (key: Result<
    [u8; KEY_SIZE],
    Error,
>)
    ensures
        key_outcome(key, master_key(password@, salt@)),
        key is Ok <==> key_derivable(password@, salt@),
        key matches Ok(bytes) ==> crate::outside::gives(
            crate::outside::argon2id_derived(
                vstd::utf8::encode_utf8(password@),
                salt@,
                19456,
                2,
                1,
            ),
            bytes@,
        ),
        key is Ok <==> vstd::utf8::encode_utf8(password@).len() <= 4_294_967_295 && 8 <= salt@.len()
            <= 4_294_967_295,
{
    key_from_derived(
        crate::outside::argon2id_derive(
            password.expose_secret().as_bytes(),
            salt,
            ARGON2_M_COST,
            ARGON2_T_COST,
            ARGON2_P_COST,
        ),
    )
}

/// Generates a random salt: any bytes of the salt's size.
pub fn generate_salt() -> (salt: [u8; SALT_SIZE])
    ensures
        salt@.len() == SALT_SIZE,
{
    crate::outside::random_bytes::<SALT_SIZE>()
}

/// The key of a store and the salt that it was derived with. The key is wiped from memory when this
/// is dropped.
#[derive(Debug)]
pub struct EncryptionMetadata {
    key: SecretKey,
    salt: Vec<u8>,
}

impl EncryptionMetadata {
    /// The bytes of the key.
    pub closed spec fn key_view(self) -> Seq<u8> {
        self.key@
    }

    /// The bytes of the salt.
    pub closed spec fn salt_view(self) -> Seq<u8> {
        self.salt@
    }

    /// Holds a key and its salt.
    pub fn new(key: [u8; KEY_SIZE], salt: Vec<u8>) -> (metadata: Self)
        ensures
            metadata.key_view() == key@,
            metadata.salt_view() == salt@,
    {
        EncryptionMetadata { key: crate::outside::guard_key(key), salt }
    }

    /// The key.
    pub fn key(&self) -> (key: &[u8; KEY_SIZE])
        ensures
            key@ == self.key_view(),
    {
        crate::outside::open_key(&self.key)
    }

    /// The salt.
    pub fn salt(&self) -> (salt: &[u8])
        ensures
            salt@ == self.salt_view(),
    {
        self.salt.as_slice()
    }
}

impl Clone for EncryptionMetadata {
    fn clone(&self) -> (copy: Self)
        ensures
            copy.key_view() == self.key_view(),
            copy.salt_view() == self.salt_view(),
    {
        EncryptionMetadata::new(*self.key(), vstd::slice::slice_to_vec(self.salt()))
    }
}

} // verus!
