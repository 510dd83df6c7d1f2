//! What passwords and keys are made from.
use crate::error::Error;
use crate::keys::{EncryptionMetadata, SystemContext};
use crate::outside::{KdfFailure, SecretString};
use vstd::prelude::*;

verus! {

/// An explicit master password is the master password, whatever its text, the path and the user.
pub proof fn law_explicit_password_is_kept(
    secret: SecretString,
    config_path: &str,
    context: SystemContext,
    password: SecretString,
)
    requires
        call_ensures(
            crate::keys::resolve_master_password,
            (Some(secret), config_path, &context),
            password,
        ),
    ensures
        password@ == secret@,
{
}

/// Without an explicit one, the master password is the automatic one of the same path and user.
pub proof fn law_other_password_is_automatic(
    config_path: &str,
    context: SystemContext,
    password: SecretString,
    automatic: SecretString,
)
    requires
        call_ensures(
            crate::keys::resolve_master_password,
            (None::<SecretString>, config_path, &context),
            password,
        ),
        call_ensures(crate::keys::derive_auto_password, (config_path, &context), automatic),
    ensures
        password@ == automatic@,
{
}

/// The base64 text of the BLAKE3 hash of `input`, keyed by the hash of the library's label.
pub open spec fn hashed(input: Seq<char>) -> Seq<char> {
    crate::outside::base64_text(
        crate::outside::blake3_keyed_digest(
            crate::outside::blake3_digest(vstd::utf8::encode_utf8("storify-kdf-context-8964"@)),
            vstd::utf8::encode_utf8(input),
        ),
    )
}

/// The automatic password is hashed from all of the user's name, `USER` or else `USERNAME`, and all of
/// the path, with `::` between them and the label; without a user's name, from the path and the label.
pub proof fn law_automatic_password(
    config_path: &str,
    context: SystemContext,
    password: SecretString,
)
    requires
        call_ensures(crate::keys::derive_auto_password, (config_path, &context), password),
    ensures
        context.user matches Some(user) ==> password@ == hashed(
            user@ + "::"@ + config_path@ + "::"@ + "storify-auto-encryption-v1"@,
        ),
        context.user is None ==> (context.username matches Some(user) ==> password@ == hashed(
            user@ + "::"@ + config_path@ + "::"@ + "storify-auto-encryption-v1"@,
        )),
        context.user is None && context.username is None ==> password@ == hashed(
            config_path@ + "::"@ + "storify-auto-encryption-v1"@,
        ),
        password@.len() == 44,
{
    assert(Seq::<char>::empty() + config_path@ =~= config_path@);
}

/// The text that is hashed for the automatic password, and the name that stands in it.
pub proof fn law_automatic_password_input(
    context: SystemContext,
    account: Option<&str>,
    config_path: &str,
    combined: String,
)
    requires
        call_ensures(crate::keys::SystemContext::account, (&context,), account),
        call_ensures(crate::keys::auto_password_input, (account, config_path), combined),
    ensures
        account is None <==> context.user is None && context.username is None,
        account matches Some(name) ==> {
            &&& context.user matches Some(user) ==> name@ == user@
            &&& context.user is None ==> (context.username matches Some(user) && name@ == user@)
            &&& combined@ == name@ + "::"@ + config_path@ + "::"@ + "storify-auto-encryption-v1"@
        },
        account is None ==> combined@ == config_path@ + "::"@ + "storify-auto-encryption-v1"@,
{
    assert(Seq::<char>::empty() + config_path@ =~= config_path@);
}

/// What Argon2id derives from all bytes of a password and all of a salt, with 19456 KiB, two passes and
/// one lane.
pub open spec fn argon2_key(password: Seq<char>, salt: Seq<u8>) -> Result<Seq<u8>, KdfFailure> {
    crate::outside::argon2id_derived(vstd::utf8::encode_utf8(password), salt, 19456, 2, 1)
}

/// The key is what Argon2id derives from all of the password and all of the salt. There is one if and
/// only if the password has at most 4294967295 bytes and the salt between eight and as many; an error
/// quotes Argon2id.
pub proof fn law_master_key(
    password: SecretString,
    salt: &[u8],
    result: Result<[u8; 32], Error>,
)
    requires
        call_ensures(crate::keys::derive_master_key, (&password, salt), result),
    ensures
        match (result, argon2_key(password@, salt@)) {
            (Ok(key), Ok(bytes)) => key@ == bytes,
            (Err(err), Err(KdfFailure::Costs(source))) => crate::laws::errors::encryption_error_of(
                err,
                "invalid argon2 parameters: "@,
                source,
            ),
            (Err(err), Err(KdfFailure::Inputs(source))) => crate::laws::errors::encryption_error_of(
                err,
                "failed to derive master key: "@,
                source,
            ),
            _ => false,
        },
        result is Ok <==> vstd::utf8::encode_utf8(password@).len() <= 4_294_967_295 && 8
            <= salt@.len() <= 4_294_967_295,
{
    lemma_master_key(password@, salt@);
    if let (Err(err), Err(fault)) = (result, crate::keys::master_key(password@, salt@)) {
        crate::laws::errors::law_reported_messages(err, fault);
    }
}

/// The key of a master password and a salt, over Argon2id.
pub proof fn lemma_master_key(password: Seq<char>, salt: Seq<u8>)
    ensures
        match (crate::keys::master_key(password, salt), argon2_key(password, salt)) {
            (Ok(key), Ok(bytes)) => key == bytes,
            (Err(fault), Err(KdfFailure::Costs(source))) => fault == crate::error::Fault::KeyCosts(
                source,
            ),
            (Err(fault), Err(KdfFailure::Inputs(source))) => fault == crate::error::Fault::KeyInputs(
                source,
            ),
            _ => false,
        },
        crate::keys::key_derivable(password, salt) <==> vstd::utf8::encode_utf8(password).len()
            <= 4_294_967_295 && 8 <= salt.len() <= 4_294_967_295,
{
}

/// A key and a salt are handed out as they were given, also from a copy.
pub proof fn law_metadata_keeps_key_and_salt(
    key: [u8; 32],
    salt: Vec<u8>,
    metadata: EncryptionMetadata,
    copy: EncryptionMetadata,
    found_key: &[u8; 32],
    found_salt: &[u8],
    copied_key: &[u8; 32],
    copied_salt: &[u8],
)
    requires
        call_ensures(EncryptionMetadata::new, (key, salt), metadata),
        call_ensures(EncryptionMetadata::clone, (&metadata,), copy),
        call_ensures(EncryptionMetadata::key, (&metadata,), found_key),
        call_ensures(EncryptionMetadata::salt, (&metadata,), found_salt),
        call_ensures(EncryptionMetadata::key, (&copy,), copied_key),
        call_ensures(EncryptionMetadata::salt, (&copy,), copied_salt),
    ensures
        found_key@ == key@,
        found_salt@ == salt@,
        copied_key@ == key@,
        copied_salt@ == salt@,
{
}

/// A secret is handed out as it was given, also from a copy.
pub proof fn law_secret_keeps_text(
    text: String,
    secret: SecretString,
    copy: SecretString,
    found: &str,
    copied: &str,
)
    requires
        call_ensures(SecretString::new, (text,), secret),
        call_ensures(SecretString::clone, (&secret,), copy),
        call_ensures(SecretString::expose_secret, (&secret,), found),
        call_ensures(SecretString::expose_secret, (&copy,), copied),
    ensures
        found@ == text@,
        copied@ == text@,
        secret@ == text@,
{
}

} // verus!
