//! Named storage profiles whose credentials are encrypted at rest.
//!
//! - `crypto`: the encryption of single fields, and the two forms of an encrypted field.
//! - `keys`: master passwords, salts and the keys that are derived from them.
//! - `profile`, `profiles`: a profile's settings, and profiles by name.
//! - `sealing`: the encryption of the credentials of all profiles.
//! - `store`, `opening`: the profile store, and how it is opened.
//! - `files`: where a store stands, and how its file is replaced.
//! - `text`, `error`: text and errors.
//! - `laws`: what the operations do, said of their calls.
//! - `outside`: what is taken from other crates without proof.
//!
//! Disks, the environment and the syntax of the store's file are left to the caller.
use vstd::prelude::*;

pub mod crypto;
pub mod error;
pub mod files;
pub mod keys;
pub mod laws;
pub mod opening;
pub mod outside;
pub mod profile;
pub mod profiles;
pub mod sealing;
pub mod store;
pub mod text;

pub use crate::crypto::{
    decrypt_field, decrypt_field_auto, decrypt_field_with_salt, encrypt_field,
    encrypt_field_with_salt, extract_salt, FIELD_ENCRYPTED_PREFIX,
};
pub use crate::error::Error;
pub use crate::keys::{
    derive_auto_password, derive_master_key, generate_salt, resolve_master_password,
    EncryptionMetadata, SystemContext,
};
pub use crate::opening::{Opening, PathState, ProfileStoreOpenOptions, StoreText};
pub use crate::outside::SecretString;
pub use crate::profile::{StorageConfig, StorageProvider, StoredProfile};
pub use crate::profiles::Profiles;
pub use crate::store::{ProfileStore, ProfileStoreFile};

verus! {

} // verus!
