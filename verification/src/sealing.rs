//! Encryption and decryption of the credentials of all profiles of a store.
use crate::crypto::KEY_SIZE;
use crate::error::{Error, Fault};
use crate::profile::Settings;
use crate::profiles::{NamedSettings, Profiles};
use vstd::prelude::*;

verus! {

// ---------------------------------------------------------------------------------------------
// What stored profiles mean
// ---------------------------------------------------------------------------------------------

/// What a stored credential holds under `key`. A credential that is not encrypted holds nothing.
pub open spec fn opened_credential(field: Option<Seq<char>>, key: Seq<u8>) -> Result<
    Option<Seq<char>>,
    Fault,
> {
    match field {
        None => Ok(None),
        Some(text) => crate::crypto::any_field_text(text, key),
    }
}

/// A stored profile with its credentials decrypted, or the first fault of the two.
pub open spec fn opened_settings(settings: Settings, key: Seq<u8>) -> Result<Settings, Fault> {
    match opened_credential(settings.access_key_id, key) {
        Err(fault) => Err(fault),
        Ok(id) => match opened_credential(settings.access_key_secret, key) {
            Err(fault) => Err(fault),
            Ok(secret) => Ok(settings.with_credentials(id, secret)),
        },
    }
}

/// Stored profiles with their credentials decrypted, or the first fault in the order of names.
pub open spec fn opened_entries(entries: Seq<NamedSettings>, key: Seq<u8>) -> Result<
    Seq<NamedSettings>,
    Fault,
>
    decreases entries.len(),
{
    if entries.len() == 0 {
        Ok(Seq::empty())
    } else {
        match opened_settings(entries[0].settings, key) {
            Err(fault) => Err(fault),
            Ok(settings) => match opened_entries(entries.drop_first(), key) {
                Err(fault) => Err(fault),
                Ok(rest) => Ok(seq![NamedSettings { name: entries[0].name, settings }] + rest),
            },
        }
    }
}

/// The salt embedded in a stored credential, if there is one.
pub open spec fn credential_salt(field: Option<Seq<char>>) -> Result<Option<Seq<u8>>, Fault> {
    match field {
        None => Ok(None),
        Some(text) => crate::crypto::field_salt(text),
    }
}

/// The salt embedded in the credentials of a stored profile, if there is one.
pub open spec fn settings_salt(settings: Settings) -> Result<Option<Seq<u8>>, Fault> {
    match credential_salt(settings.access_key_id) {
        Err(fault) => Err(fault),
        Ok(Some(salt)) => Ok(Some(salt)),
        Ok(None) => credential_salt(settings.access_key_secret),
    }
}

/// The first salt embedded in stored profiles, in the order of names, unless a fault comes before it.
pub open spec fn entries_salt(entries: Seq<NamedSettings>) -> Result<Seq<u8>, Fault>
    decreases entries.len(),
{
    if entries.len() == 0 {
        Err(Fault::NoSalt)
    } else {
        match settings_salt(entries[0].settings) {
            Err(fault) => Err(fault),
            Ok(Some(salt)) => Ok(salt),
            Ok(None) => entries_salt(entries.drop_first()),
        }
    }
}

/// A profile with a credential.
pub open spec fn has_credential(settings: Settings) -> bool {
    settings.access_key_id is Some || settings.access_key_secret is Some
}

/// Profiles of which one has a credential.
pub open spec fn any_credential(entries: Seq<NamedSettings>) -> bool {
    exists|i: int| 0 <= i < entries.len() && has_credential(#[trigger] entries[i].settings)
}

/// The salt that the next encrypted field embeds: the first one does, no other.
pub open spec fn pending_salt(salt: Seq<u8>, embedded: bool) -> Option<Seq<u8>> {
    if embedded {
        None
    } else {
        Some(salt)
    }
}

/// `sealed` is a field that encrypts `plaintext` under `key`, with `salt` embedded if there is one,
/// that is written as such a field is, and that gives both back.
pub open spec fn field_seals(
    plaintext: Seq<char>,
    sealed: Seq<char>,
    key: Seq<u8>,
    salt: Option<Seq<u8>>,
) -> bool {
    match salt {
        Some(salt) => {
            &&& exists|nonce: Seq<u8>|
                nonce.len() == crate::crypto::NONCE_SIZE && (
                #[trigger] crate::crypto::sealed_salted_field(plaintext, key, nonce, salt) matches Ok(
                    text,
                ) && text == sealed)
            &&& crate::crypto::reads_back_salted(sealed, plaintext, key, salt)
            &&& crate::crypto::written_salted(sealed, plaintext, key, salt)
        },
        None => {
            &&& exists|nonce: Seq<u8>|
                nonce.len() == crate::crypto::NONCE_SIZE && (#[trigger] crate::crypto::sealed_field(
                    plaintext,
                    key,
                    nonce,
                ) matches Ok(text) && text == sealed)
            &&& crate::crypto::reads_back(sealed, plaintext, key)
            &&& crate::crypto::written_bare(sealed, plaintext, key)
        },
    }
}

/// `sealed` is a credential that encrypts `plain`; it is absent where that is.
pub open spec fn credential_sealed(
    plain: Option<Seq<char>>,
    sealed: Option<Seq<char>>,
    key: Seq<u8>,
    salt: Option<Seq<u8>>,
) -> bool {
    match (plain, sealed) {
        (None, None) => true,
        (Some(plain), Some(sealed)) => field_seals(plain, sealed, key, salt),
        _ => false,
    }
}

/// `sealed` is the profile `plain` with its credentials encrypted. `embedded` tells whether a
/// profile before it has the salt.
pub open spec fn settings_sealed(
    plain: Settings,
    sealed: Settings,
    key: Seq<u8>,
    salt: Seq<u8>,
    embedded: bool,
) -> bool {
    &&& sealed == plain.with_credentials(sealed.access_key_id, sealed.access_key_secret)
    &&& credential_sealed(
        plain.access_key_id,
        sealed.access_key_id,
        key,
        pending_salt(salt, embedded),
    )
    &&& credential_sealed(
        plain.access_key_secret,
        sealed.access_key_secret,
        key,
        pending_salt(salt, embedded || plain.access_key_id is Some),
    )
}

/// The profile at position `i` of `sealed` is that of `plain` with its credentials encrypted.
pub open spec fn entry_sealed(
    plain: Seq<NamedSettings>,
    sealed: Seq<NamedSettings>,
    key: Seq<u8>,
    salt: Seq<u8>,
    i: int,
) -> bool {
    &&& sealed[i].name == plain[i].name
    &&& settings_sealed(
        plain[i].settings,
        sealed[i].settings,
        key,
        salt,
        any_credential(plain.take(i)),
    )
}

/// `sealed` is `plain` with all credentials encrypted, and the salt embedded in the first.
pub open spec fn entries_sealed(
    plain: Seq<NamedSettings>,
    sealed: Seq<NamedSettings>,
    key: Seq<u8>,
    salt: Seq<u8>,
) -> bool {
    &&& sealed.len() == plain.len()
    &&& forall|i: int| 0 <= i < plain.len() ==> #[trigger] entry_sealed(plain, sealed, key, salt, i)
}

/// A profile whose credentials can be encrypted.
pub open spec fn settings_sealable(settings: Settings) -> bool {
    &&& settings.access_key_id matches Some(text) ==> crate::crypto::field_sealable(text)
    &&& settings.access_key_secret matches Some(text) ==> crate::crypto::field_sealable(text)
}

/// Profiles whose credentials can be encrypted, with the salt in the first.
pub open spec fn entries_sealable(entries: Seq<NamedSettings>, salt: Seq<u8>) -> bool {
    &&& forall|i: int| 0 <= i < entries.len() ==> settings_sealable(#[trigger] entries[i].settings)
    &&& any_credential(entries) ==> crate::outside::base64_fits(salt.len() as int)
}

// ---------------------------------------------------------------------------------------------
// Laws
// ---------------------------------------------------------------------------------------------

/// Encrypted profiles are decrypted to what they were, under the same key.
pub proof fn law_sealed_entries_open(
    plain: Seq<NamedSettings>,
    sealed: Seq<NamedSettings>,
    key: Seq<u8>,
    salt: Seq<u8>,
)
    requires
        entries_sealed(plain, sealed, key, salt),
    ensures
        opened_entries(sealed, key) matches Ok(entries) && entries == plain,
{
    assert(sealed.skip(0) =~= sealed);
    assert(plain.skip(0) =~= plain);
    lemma_sealed_suffix_opens(plain, sealed, key, salt, 0);
}

proof fn lemma_sealed_suffix_opens(
    plain: Seq<NamedSettings>,
    sealed: Seq<NamedSettings>,
    key: Seq<u8>,
    salt: Seq<u8>,
    i: int,
)
    requires
        entries_sealed(plain, sealed, key, salt),
        0 <= i <= plain.len(),
    ensures
        opened_entries(sealed.skip(i), key) matches Ok(entries) && entries == plain.skip(i),
    decreases plain.len() - i,
{
    if i == plain.len() {
        assert(plain.skip(i) =~= Seq::<NamedSettings>::empty());
    } else {
        lemma_sealed_suffix_opens(plain, sealed, key, salt, i + 1);
        assert(entry_sealed(plain, sealed, key, salt, i));
        assert(sealed.skip(i).drop_first() =~= sealed.skip(i + 1));
        assert(sealed.skip(i)[0] == sealed[i]);
        assert(opened_settings(sealed[i].settings, key) matches Ok(settings) && settings
            == plain[i].settings);
        assert(plain.skip(i) =~= seq![plain[i]] + plain.skip(i + 1));
        assert(plain[i] == NamedSettings {
            name: sealed[i].name,
            settings: plain[i].settings,
        });
    }
}

/// The salt is found again in encrypted profiles, if there is a credential.
pub proof fn law_sealed_entries_keep_salt(
    plain: Seq<NamedSettings>,
    sealed: Seq<NamedSettings>,
    key: Seq<u8>,
    salt: Seq<u8>,
)
    requires
        entries_sealed(plain, sealed, key, salt),
        any_credential(plain),
    ensures
        entries_salt(sealed) matches Ok(found) && found == salt,
{
    assert(sealed.skip(0) =~= sealed);
    assert(plain.skip(0) =~= plain);
    lemma_sealed_suffix_salt(plain, sealed, key, salt, 0);
}

proof fn lemma_sealed_suffix_salt(
    plain: Seq<NamedSettings>,
    sealed: Seq<NamedSettings>,
    key: Seq<u8>,
    salt: Seq<u8>,
    i: int,
)
    requires
        entries_sealed(plain, sealed, key, salt),
        0 <= i <= plain.len(),
        !any_credential(plain.take(i)),
        any_credential(plain.skip(i)),
    ensures
        entries_salt(sealed.skip(i)) matches Ok(found) && found == salt,
    decreases plain.len() - i,
{
    let k = choose|k: int|
        0 <= k < plain.skip(i).len() && has_credential(#[trigger] plain.skip(i)[k].settings);
    assert(i < plain.len());
    assert(entry_sealed(plain, sealed, key, salt, i));
    assert(sealed.skip(i).drop_first() =~= sealed.skip(i + 1));
    assert(sealed.skip(i)[0] == sealed[i]);
    if !has_credential(plain[i].settings) {
        assert(plain.skip(i)[0] == plain[i]);
        assert(k != 0);
        assert(plain.skip(i + 1)[k - 1] == plain.skip(i)[k]);
        assert(any_credential(plain.skip(i + 1)));
        assert(!any_credential(plain.take(i + 1))) by {
            if any_credential(plain.take(i + 1)) {
                let j = choose|j: int|
                    0 <= j < plain.take(i + 1).len() && has_credential(
                        #[trigger] plain.take(i + 1)[j].settings,
                    );
                if j < i {
                    assert(plain.take(i)[j] == plain.take(i + 1)[j]);
                }
            }
        }
        lemma_sealed_suffix_salt(plain, sealed, key, salt, i + 1);
    }
}

/// A credential, if there is one, starts as an encrypted field does.
pub open spec fn credential_encrypted(field: Option<Seq<char>>) -> bool {
    field matches Some(text) ==> crate::crypto::FIELD_ENCRYPTED_PREFIX@.is_prefix_of(text)
}

/// No credential of encrypted profiles is left as it was: each starts as an encrypted field does.
pub proof fn law_sealed_credentials_are_encrypted(
    plain: Seq<NamedSettings>,
    sealed: Seq<NamedSettings>,
    key: Seq<u8>,
    salt: Seq<u8>,
    i: int,
)
    requires
        entries_sealed(plain, sealed, key, salt),
        0 <= i < sealed.len(),
    ensures
        credential_encrypted(sealed[i].settings.access_key_id),
        credential_encrypted(sealed[i].settings.access_key_secret),
{
    assert(entry_sealed(plain, sealed, key, salt, i));
}

/// No salt is found in profiles without credentials: they say nothing of the key.
pub proof fn law_no_credentials_no_salt(entries: Seq<NamedSettings>)
    requires
        !any_credential(entries),
    ensures
        entries_salt(entries) matches Err(fault) && fault is NoSalt,
    decreases entries.len(),
{
    if entries.len() > 0 {
        assert(!has_credential(entries[0].settings));
        assert(!any_credential(entries.drop_first())) by {
            if any_credential(entries.drop_first()) {
                let j = choose|j: int|
                    0 <= j < entries.drop_first().len() && has_credential(
                        #[trigger] entries.drop_first()[j].settings,
                    );
                assert(entries[j + 1] == entries.drop_first()[j]);
            }
        }
        law_no_credentials_no_salt(entries.drop_first());
    }
}

// ---------------------------------------------------------------------------------------------
// Decryption
// ---------------------------------------------------------------------------------------------

/// Decrypts a credential, of any form, in place. A credential that is not encrypted is dropped.
pub fn decrypt_sensitive_field(field: &mut Option<String>, key: &[u8; KEY_SIZE]) -> (done: Result<
    (),
    Error,
>)
    ensures
        match (
            done,
            opened_credential(crate::profile::optional_text(*old(field)), key@),
        ) {
            (Ok(_), Ok(opened)) => crate::profile::optional_text(*final(field)) == opened,
            (Err(err), Err(fault)) => err.reports(fault) && *final(field) == *old(field),
            _ => false,
        },
        done is Ok ==> (*final(field) is None <==> (*old(field) matches Some(text)
            ==> !"ENC:"@.is_prefix_of(text@))),
        done is Ok ==> (*final(field) matches Some(plaintext) ==> (*old(field) matches Some(text)
            && crate::laws::fields::opens_to(text@, key@, plaintext@))),
        done is Err ==> *final(field) == *old(field) && (*old(field) matches Some(text)
            && "ENC:"@.is_prefix_of(text@)),
{
    proof {
        if let Some(text) = crate::profile::optional_text(*field) {
            crate::laws::fields::lemma_any_field(text, key@);
        }
    }
    if let Some(encrypted) = field.as_ref() {
        match crate::crypto::decrypt_field_auto(encrypted.as_str(), key) {
            Ok(plaintext) => {
                *field = plaintext;
            },
            Err(err) => {
                return Err(err);
            },
        }
    }
    Ok(())
}

/// Decrypts the credentials of all profiles.
pub fn decrypt_all_profiles(profiles: Profiles, key: &[u8; KEY_SIZE]) -> (opened: Result<
    Profiles,
    Error,
>)
    requires
        profiles.wf(),
    ensures
        match (opened, opened_entries(profiles@, key@)) {
            (Ok(opened), Ok(entries)) => opened@ == entries && opened.wf(),
            (Err(err), Err(fault)) => err.reports(fault),
            _ => false,
        },
{
    let mut opened = profiles;
    let ghost stored = opened@;
    let mut i: usize = 0;
    assert(stored.skip(0) =~= stored);
    assert forall|rest: Seq<NamedSettings>| opened@.take(0) + rest == rest by {
        assert(opened@.take(0) + rest =~= rest);
    }
    while i < opened.len()
        invariant
            stored == profiles@,
            opened.wf(),
            i <= opened@.len(),
            opened@.len() == stored.len(),
            opened@.skip(i as int) == stored.skip(i as int),
            match opened_entries(stored.skip(i as int), key@) {
                Ok(rest) => opened_entries(stored, key@) matches Ok(all) && all == opened@.take(
                    i as int,
                ) + rest,
                Err(fault) => opened_entries(stored, key@) matches Err(first) && first == fault,
            },
        decreases opened@.len() - i,
    {
        let ghost before = opened@;
        proof {
            assert(stored.skip(i as int)[0] == opened@.skip(i as int)[0]);
            assert(stored.skip(i as int)[0] == stored[i as int]);
            assert(opened@.skip(i as int)[0] == opened@[i as int]);
            assert(stored.skip(i as int).drop_first() =~= stored.skip(i + 1));
        }
        let mut id = crate::profile::copy_optional(&opened.profile_at(i).access_key_id);
        let mut secret = crate::profile::copy_optional(&opened.profile_at(i).access_key_secret);
        if let Err(err) = decrypt_sensitive_field(&mut id, key) {
            return Err(err);
        }
        if let Err(err) = decrypt_sensitive_field(&mut secret, key) {
            return Err(err);
        }
        opened.set_credentials_at(i, id, secret);
        proof {
            let entry = opened@[i as int];
            assert(opened@.skip(i + 1) =~= before.skip(i as int).drop_first());
            assert(opened@.take(i + 1) =~= before.take(i as int) + seq![entry]);
            assert forall|rest: Seq<NamedSettings>|
                before.take(i as int) + (seq![entry] + rest) == opened@.take(i + 1) + rest by {
                assert(before.take(i as int) + (seq![entry] + rest) =~= opened@.take(i + 1) + rest);
            }
        }
        i = i + 1;
    }
    proof {
        assert(stored.skip(i as int) =~= Seq::<NamedSettings>::empty());
        assert(opened@.take(i as int) + Seq::<NamedSettings>::empty() =~= opened@);
    }
    Ok(opened)
}

/// Looks for the embedded salt in a stored credential.
fn find_salt(field: &Option<String>) -> (salt: Result<Option<Vec<u8>>, Error>)
    ensures
        crate::crypto::optional_bytes_outcome(
            salt,
            credential_salt(crate::profile::optional_text(*field)),
        ),
{
    match field {
        Some(text) => crate::crypto::extract_salt(text.as_str()),
        None => Ok(None),
    }
}

/// Extracts the first embedded salt of stored profiles, in the order of their names.
pub fn extract_salt_from_profiles(profiles: &Profiles) -> (salt: Result<Vec<u8>, Error>)
    ensures
        match (salt, entries_salt(profiles@)) {
            (Ok(salt), Ok(expected)) => salt@ == expected,
            (Err(err), Err(fault)) => err.reports(fault),
            _ => false,
        },
{
    let mut i: usize = 0;
    assert(profiles@.skip(0) =~= profiles@);
    while i < profiles.len()
        invariant
            i <= profiles@.len(),
            entries_salt(profiles@.skip(i as int)) == entries_salt(profiles@),
        decreases profiles@.len() - i,
    {
        assert(profiles@.skip(i as int)[0] == profiles@[i as int]);
        assert(profiles@.skip(i as int).drop_first() =~= profiles@.skip(i + 1));
        let profile = profiles.profile_at(i);
        match find_salt(&profile.access_key_id) {
            Err(err) => {
                return Err(err);
            },
            Ok(Some(salt)) => {
                return Ok(salt);
            },
            Ok(None) => {},
        }
        match find_salt(&profile.access_key_secret) {
            Err(err) => {
                return Err(err);
            },
            Ok(Some(salt)) => {
                return Ok(salt);
            },
            Ok(None) => {},
        }
        i = i + 1;
    }
    Err(
        Error::ProfileDecryption {
            message:
                "no encrypted fields found with embedded salt (expected format: ENC:v1:salt:ciphertext)".to_string(),
        },
    )
}

// ---------------------------------------------------------------------------------------------
// Encryption
// ---------------------------------------------------------------------------------------------

/// Encrypts a credential, with the salt unless that is embedded already.
fn seal_credential(plaintext: &str, key: &[u8; KEY_SIZE], salt: &[u8], embedded: bool) -> (sealed:
    Result<String, Error>)
    ensures
        match sealed {
            Ok(text) => field_seals(plaintext@, text@, key@, pending_salt(salt@, embedded)),
            Err(err) => err.reports(Fault::PlaintextOverlong),
        },
        sealed is Ok <==> crate::crypto::field_sealable(plaintext@) && (embedded
            || crate::outside::base64_fits(salt@.len() as int)),
{
    if embedded {
        crate::crypto::encrypt_field(plaintext, key)
    } else {
        crate::crypto::encrypt_field_with_salt(plaintext, key, salt)
    }
}

/// The profiles before position `k` are encrypted and those behind it are not; of the one at `k`,
/// the key id may be.
pub open spec fn entries_partly_sealed(
    plain: Seq<NamedSettings>,
    sealed: Seq<NamedSettings>,
    key: Seq<u8>,
    salt: Seq<u8>,
    k: int,
) -> bool {
    &&& 0 <= k < plain.len()
    &&& sealed.len() == plain.len()
    &&& forall|i: int| 0 <= i < k ==> #[trigger] entry_sealed(plain, sealed, key, salt, i)
    &&& forall|i: int| k < i < plain.len() ==> #[trigger] sealed[i] == plain[i]
    &&& sealed[k] == plain[k] || (sealed[k].name == plain[k].name && sealed[k].settings
        == plain[k].settings.with_credentials(
        sealed[k].settings.access_key_id,
        plain[k].settings.access_key_secret,
    ) && credential_sealed(
        plain[k].settings.access_key_id,
        sealed[k].settings.access_key_id,
        key,
        pending_salt(salt, any_credential(plain.take(k))),
    ))
}

/// One profile more has a credential where it has one.
proof fn lemma_any_credential_step(entries: Seq<NamedSettings>, i: int)
    requires
        0 <= i < entries.len(),
    ensures
        any_credential(entries.take(i + 1)) == (any_credential(entries.take(i)) || has_credential(
            entries[i].settings,
        )),
{
    if any_credential(entries.take(i)) {
        let j = choose|j: int|
            0 <= j < entries.take(i).len() && has_credential(#[trigger] entries.take(i)[j].settings);
        assert(entries.take(i + 1)[j] == entries.take(i)[j]);
    }
    if has_credential(entries[i].settings) {
        assert(entries.take(i + 1)[i] == entries[i]);
    }
    if any_credential(entries.take(i + 1)) {
        let j = choose|j: int|
            0 <= j < entries.take(i + 1).len() && has_credential(
                #[trigger] entries.take(i + 1)[j].settings,
            );
        if j < i {
            assert(entries.take(i)[j] == entries.take(i + 1)[j]);
        }
    }
}

/// Encrypts the credentials of all profiles, in the order of their names. The first encrypted field
/// embeds the salt.
pub fn encrypt_all_profiles(profiles: &mut Profiles, key: &[u8; KEY_SIZE], salt: &[u8]) -> (done:
    Result<(), Error>)
    requires
        old(profiles).wf(),
    ensures
        final(profiles).wf(),
        done is Ok <==> entries_sealable(old(profiles)@, salt@),
        match done {
            Ok(_) => entries_sealed(old(profiles)@, final(profiles)@, key@, salt@),
            Err(err) => err.reports(Fault::PlaintextOverlong) && exists|k: int|
                #[trigger] entries_partly_sealed(
                    old(profiles)@,
                    final(profiles)@,
                    key@,
                    salt@,
                    k,
                ),
        },
{
    let ghost plain = profiles@;
    let mut salt_embedded = false;
    let mut i: usize = 0;
    while i < profiles.len()
        invariant
            profiles.wf(),
            plain == old(profiles)@,
            profiles@.len() == plain.len(),
            i <= plain.len(),
            salt_embedded == any_credential(plain.take(i as int)),
            salt_embedded ==> crate::outside::base64_fits(salt@.len() as int),
            forall|j: int| 0 <= j < i ==> #[trigger] entry_sealed(plain, profiles@, key@, salt@, j),
            forall|j: int| i <= j < plain.len() ==> #[trigger] profiles@[j] == plain[j],
            forall|j: int| 0 <= j < i ==> settings_sealable(#[trigger] plain[j].settings),
        decreases plain.len() - i,
    {
        let ghost before = profiles@;
        proof {
            lemma_any_credential_step(plain, i as int);
            assert(profiles@[i as int] == plain[i as int]);
        }
        let id = crate::profile::copy_optional(&profiles.profile_at(i).access_key_id);
        let secret = crate::profile::copy_optional(&profiles.profile_at(i).access_key_secret);
        if let Some(value) = &id {
            match seal_credential(value.as_str(), key, salt, salt_embedded) {
                Ok(text) => {
                    let kept = crate::profile::copy_optional(&secret);
                    profiles.set_credentials_at(i, Some(text), kept);
                    salt_embedded = true;
                },
                Err(err) => {
                    proof {
                        lemma_refused(plain, salt@, i as int);
                        assert(entries_partly_sealed(plain, profiles@, key@, salt@, i as int));
                    }
                    return Err(err);
                },
            }
        }
        let ghost between = profiles@;
        proof {
            assert forall|j: int| 0 <= j < i implies #[trigger] entry_sealed(
                plain,
                between,
                key@,
                salt@,
                j,
            ) by {
                assert(entry_sealed(plain, before, key@, salt@, j));
                assert(between[j] == before[j]);
            }
            assert forall|j: int| i < j < plain.len() implies #[trigger] between[j] == plain[j] by {
                assert(before[j] == plain[j]);
            }
            assert(entries_partly_sealed(plain, between, key@, salt@, i as int));
        }
        if let Some(value) = &secret {
            match seal_credential(value.as_str(), key, salt, salt_embedded) {
                Ok(text) => {
                    let sealed_id = crate::profile::copy_optional(
                        &profiles.profile_at(i).access_key_id,
                    );
                    profiles.set_credentials_at(i, sealed_id, Some(text));
                    salt_embedded = true;
                },
                Err(err) => {
                    proof {
                        lemma_refused(plain, salt@, i as int);
                    }
                    return Err(err);
                },
            }
        }
        proof {
            let after = profiles@;
            assert forall|j: int| 0 <= j < i + 1 implies #[trigger] entry_sealed(
                plain,
                after,
                key@,
                salt@,
                j,
            ) by {
                if j < i {
                    assert(entry_sealed(plain, between, key@, salt@, j));
                    assert(after[j] == between[j]);
                }
            }
            assert forall|j: int| i + 1 <= j < plain.len() implies #[trigger] after[j] == plain[j] by {
                assert(between[j] == plain[j]);
            }
        }
        i = i + 1;
    }
    assert(plain.take(i as int) =~= plain);
    Ok(())
}

/// Profiles of which one cannot be encrypted cannot all be.
proof fn lemma_refused(plain: Seq<NamedSettings>, salt: Seq<u8>, i: int)
    requires
        0 <= i < plain.len(),
        !settings_sealable(plain[i].settings) || (has_credential(plain[i].settings)
            && !crate::outside::base64_fits(salt.len() as int)),
    ensures
        !entries_sealable(plain, salt),
{
}

} // verus!
