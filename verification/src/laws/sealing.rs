//! What happens to the credentials of all profiles.
use crate::error::Error;
use crate::profile::Settings;
use crate::profiles::{NamedSettings, Profiles};
use vstd::prelude::*;

verus! {

// ---------------------------------------------------------------------------------------------
// Decryption
// ---------------------------------------------------------------------------------------------

/// A stored credential is decrypted under `key` to `opened`: to nothing where there is none or it does
/// not start with `ENC:`, and otherwise to the plaintext that it is read to.
pub open spec fn credential_opens(
    stored: Option<Seq<char>>,
    key: Seq<u8>,
    opened: Option<Seq<char>>,
) -> bool {
    match (stored, opened) {
        (None, None) => true,
        (None, Some(_)) => false,
        (Some(text), None) => !"ENC:"@.is_prefix_of(text),
        (Some(text), Some(plaintext)) => crate::laws::fields::opens_to(text, key, plaintext),
    }
}

/// A stored credential starts with `ENC:` and is read to nothing under `key`.
pub open spec fn credential_refused(stored: Option<Seq<char>>, key: Seq<u8>) -> bool {
    &&& stored matches Some(text)
    &&& "ENC:"@.is_prefix_of(text)
    &&& forall|plaintext: Seq<char>| !#[trigger]
        crate::laws::fields::opens_to(text, key, plaintext)
}

/// A credential is decrypted to something or refused, not both.
proof fn lemma_credential(stored: Option<Seq<char>>, key: Seq<u8>)
    ensures
        match crate::sealing::opened_credential(stored, key) {
            Ok(opened) => credential_opens(stored, key, opened) && !credential_refused(stored, key),
            Err(_) => credential_refused(stored, key),
        },
{
    if let Some(text) = stored {
        crate::laws::fields::lemma_any_field(text, key);
    }
}

/// A credential that starts with `ENC:` is decrypted in place to the plaintext that it is read to, or
/// refused and left as it was, where it is read to nothing. It becomes nothing if and only if it was
/// nothing or does not start with `ENC:`.
pub proof fn law_decrypt_sensitive_field(
    field: &mut Option<String>,
    key: &[u8; 32],
    done: Result<(), Error>,
)
    requires
        call_ensures(crate::sealing::decrypt_sensitive_field, (field, key), done),
    ensures
        done is Err <==> (*old(field) matches Some(text) && "ENC:"@.is_prefix_of(text@) && forall|
            plaintext: Seq<char>,
        | !#[trigger] crate::laws::fields::opens_to(text@, key@, plaintext)),
        done matches Err(err) ==> err is ProfileDecryption && *final(field) == *old(field),
        done is Ok ==> {
            &&& *final(field) is None <==> (*old(field) matches Some(text) ==> !"ENC:"@.is_prefix_of(
                text@,
            ))
            &&& *final(field) matches Some(plaintext) ==> (*old(field) matches Some(text)
                && crate::laws::fields::opens_to(text@, key@, plaintext@))
        },
{
    let stored = crate::profile::optional_text(*old(field));
    lemma_credential(stored, key@);
    crate::laws::profiles::law_optional_text(*old(field));
    crate::laws::profiles::law_optional_text(*final(field));
    if let (Err(err), Err(fault)) = (done, crate::sealing::opened_credential(stored, key@)) {
        lemma_credential_error(stored, key@, err);
    }
}

/// Decrypting a credential in place is refused, or gives what it gives, as `decrypt_field_auto` does of
/// its text.
pub proof fn law_decrypt_sensitive_field_as_field(
    field: &mut Option<String>,
    key: &[u8; 32],
    done: Result<(), Error>,
    text: &str,
    auto: Result<Option<String>, Error>,
)
    requires
        call_ensures(crate::sealing::decrypt_sensitive_field, (field, key), done),
        *old(field) matches Some(stored) && stored@ == text@,
        call_ensures(crate::crypto::decrypt_field_auto, (text, key), auto),
    ensures
        match auto {
            Ok(Some(plaintext)) => done is Ok && (*final(field) matches Some(found) && found@
                == plaintext@),
            Ok(None) => done is Ok && *final(field) is None,
            Err(_) => done is Err && *final(field) == *old(field),
        },
{
}

/// A credential that is not decrypted gives a decryption error.
proof fn lemma_credential_error(stored: Option<Seq<char>>, key: Seq<u8>, err: Error)
    ensures
        crate::sealing::opened_credential(stored, key) matches Err(fault) ==> (err.reports(fault)
            ==> err is ProfileDecryption),
{
    if let Err(fault) = crate::sealing::opened_credential(stored, key) {
        crate::laws::errors::law_reported_messages(err, fault);
    }
}

/// Settings agree but for the credentials.
pub open spec fn same_but_credentials(a: Settings, b: Settings) -> bool {
    &&& a.provider == b.provider
    &&& a.bucket == b.bucket
    &&& a.endpoint == b.endpoint
    &&& a.region == b.region
    &&& a.root_path == b.root_path
    &&& a.name_node == b.name_node
    &&& a.anonymous == b.anonymous
}

/// A stored profile is decrypted to `opened`: both credentials are, and all else stays.
pub open spec fn entry_opens(stored: NamedSettings, key: Seq<u8>, opened: NamedSettings) -> bool {
    &&& opened.name == stored.name
    &&& same_but_credentials(opened.settings, stored.settings)
    &&& credential_opens(stored.settings.access_key_id, key, opened.settings.access_key_id)
    &&& credential_opens(stored.settings.access_key_secret, key, opened.settings.access_key_secret)
}

/// A credential of a stored profile is refused.
pub open spec fn entry_refused(stored: NamedSettings, key: Seq<u8>) -> bool {
    credential_refused(stored.settings.access_key_id, key) || credential_refused(
        stored.settings.access_key_secret,
        key,
    )
}

/// All stored profiles are decrypted to `opened`.
pub open spec fn entries_open(
    stored: Seq<NamedSettings>,
    key: Seq<u8>,
    opened: Seq<NamedSettings>,
) -> bool {
    &&& opened.len() == stored.len()
    &&& forall|i: int| #![trigger stored[i]] #![trigger opened[i]]
        0 <= i < stored.len() ==> entry_opens(stored[i], key, opened[i])
}

/// A credential of some stored profile is refused.
pub open spec fn any_refused(stored: Seq<NamedSettings>, key: Seq<u8>) -> bool {
    exists|i: int| 0 <= i < stored.len() && entry_refused(#[trigger] stored[i], key)
}

/// Stored profiles are all decrypted, or one is refused, not both.
pub proof fn lemma_opened_entries(entries: Seq<NamedSettings>, key: Seq<u8>, err: Error)
    ensures
        match crate::sealing::opened_entries(entries, key) {
            Ok(opened) => entries_open(entries, key, opened) && !any_refused(entries, key),
            Err(fault) => any_refused(entries, key) && (err.reports(fault)
                ==> err is ProfileDecryption),
        },
    decreases entries.len(),
{
    if entries.len() > 0 {
        let first = entries[0];
        let rest = entries.drop_first();
        lemma_opened_entries(rest, key, err);
        lemma_credential(first.settings.access_key_id, key);
        lemma_credential(first.settings.access_key_secret, key);
        lemma_credential_error(first.settings.access_key_id, key, err);
        lemma_credential_error(first.settings.access_key_secret, key, err);
        if let Ok(opened) = crate::sealing::opened_entries(entries, key) {
            let opened_rest = crate::sealing::opened_entries(rest, key)->Ok_0;
            assert forall|i: int| #![trigger entries[i]] #![trigger opened[i]]
                0 <= i < entries.len() implies entry_opens(entries[i], key, opened[i]) by {
                if i > 0 {
                    assert(rest[i - 1] == entries[i]);
                    assert(opened[i] == opened_rest[i - 1]);
                }
            }
            if any_refused(entries, key) {
                let i = choose|i: int| 0 <= i < entries.len() && entry_refused(#[trigger] entries[i], key);
                if i > 0 {
                    assert(rest[i - 1] == entries[i]);
                }
            }
        } else if crate::sealing::opened_settings(first.settings, key) is Err {
            assert(entry_refused(entries[0], key));
        } else {
            let i = choose|i: int| 0 <= i < rest.len() && entry_refused(#[trigger] rest[i], key);
            assert(entries[i + 1] == rest[i]);
        }
    }
}

/// All profiles are decrypted: both credentials of each, and nothing else changes. That is refused if and
/// only if a credential is.
pub proof fn law_decrypt_all_profiles(
    profiles: Profiles,
    key: &[u8; 32],
    result: Result<Profiles, Error>,
)
    requires
        profiles.wf(),
        call_ensures(crate::sealing::decrypt_all_profiles, (profiles, key), result),
    ensures
        result is Err <==> any_refused(profiles@, key@),
        result matches Ok(opened) ==> opened.wf() && entries_open(profiles@, key@, opened@),
        result matches Err(err) ==> err is ProfileDecryption,
{
    match result {
        Err(err) => lemma_opened_entries(profiles@, key@, err),
        Ok(_) => lemma_opened_entries(profiles@, key@, arbitrary::<Error>()),
    }
}

// ---------------------------------------------------------------------------------------------
// Salts
// ---------------------------------------------------------------------------------------------

/// The credentials of profiles, in the order of names, each key id before the secret beside it.
pub open spec fn credential_at(entries: Seq<NamedSettings>, k: int) -> Option<Seq<char>> {
    if k % 2 == 0 {
        entries[k / 2].settings.access_key_id
    } else {
        entries[k / 2].settings.access_key_secret
    }
}

/// A credential starts with `ENC:v1:`.
pub open spec fn salted(credential: Option<Seq<char>>) -> bool {
    credential matches Some(text) && "ENC:v1:"@.is_prefix_of(text)
}

/// The credential at `k` is the first that starts with `ENC:v1:`.
pub open spec fn first_salted(entries: Seq<NamedSettings>, k: int) -> bool {
    &&& 0 <= k < 2 * entries.len()
    &&& salted(credential_at(entries, k))
    &&& forall|j: int| 0 <= j < k ==> !salted(#[trigger] credential_at(entries, j))
}

/// No credential starts with `ENC:v1:`.
pub open spec fn none_salted(entries: Seq<NamedSettings>) -> bool {
    forall|j: int| 0 <= j < 2 * entries.len() ==> !salted(#[trigger] credential_at(entries, j))
}

/// The bytes of the salt that a text embeds.
pub open spec fn embeds(text: Seq<char>, salt: Seq<u8>) -> bool {
    exists|encoded_salt: Seq<char>, encoded: Seq<char>| #[trigger]
        crate::laws::fields::salted_parts(text, encoded_salt, encoded) && (
        crate::outside::base64_decoded(encoded_salt) matches Ok(bytes) && bytes == salt)
}

/// The salt of a text, over the text.
pub proof fn lemma_field_salt(text: Seq<char>)
    ensures
        match crate::crypto::field_salt(text) {
            Ok(None) => !"ENC:v1:"@.is_prefix_of(text),
            Ok(Some(salt)) => "ENC:v1:"@.is_prefix_of(text) && embeds(text, salt),
            Err(fault) => {
                &&& "ENC:v1:"@.is_prefix_of(text)
                &&& !(fault is NoSalt)
                &&& forall|salt: Seq<u8>| !#[trigger] embeds(text, salt)
            },
        },
        forall|salt: Seq<u8>| #[trigger]
            embeds(text, salt) ==> (crate::crypto::field_salt(text) matches Ok(Some(found)) && found
                == salt),
{
    crate::laws::fields::lemma_shape(text);
    if let crate::crypto::FieldShape::Salted(salt, encoded) = crate::crypto::field_shape(text) {
        assert(crate::laws::fields::salted_parts(text, salt, encoded));
    }
    assert forall|salt: Seq<u8>| #[trigger] embeds(text, salt) implies (crate::crypto::field_salt(
        text,
    ) matches Ok(Some(found)) && found == salt) by {
        let (encoded_salt, encoded) = choose|encoded_salt: Seq<char>, encoded: Seq<char>| #[trigger]
            crate::laws::fields::salted_parts(text, encoded_salt, encoded) && (
            crate::outside::base64_decoded(encoded_salt) matches Ok(bytes) && bytes == salt);
        crate::laws::fields::lemma_parts_shape(text, encoded_salt, encoded);
    }
}

/// The first salt of profiles, over their credentials.
pub proof fn lemma_entries_salt(entries: Seq<NamedSettings>, k: int)
    ensures
        none_salted(entries) ==> (crate::sealing::entries_salt(entries) matches Err(fault)
            && fault is NoSalt),
        first_salted(entries, k) ==> match (
            crate::crypto::field_salt(credential_at(entries, k)->Some_0),
            crate::sealing::entries_salt(entries),
        ) {
            (Ok(Some(salt)), Ok(found)) => found == salt,
            (Err(fault), Err(found)) => found == fault,
            _ => false,
        },
    decreases entries.len(),
{
    if entries.len() > 0 {
        let rest = entries.drop_first();
        lemma_entries_salt(rest, k - 2);
        assert forall|j: int| 0 <= j < 2 * rest.len() implies #[trigger] credential_at(rest, j)
            == credential_at(entries, j + 2) by {
            assert(rest[j / 2] == entries[(j + 2) / 2]);
        }
        assert(credential_at(entries, 0) == entries[0].settings.access_key_id);
        assert(credential_at(entries, 1) == entries[0].settings.access_key_secret);
        if let Some(text) = entries[0].settings.access_key_id {
            lemma_field_salt(text);
        }
        if let Some(text) = entries[0].settings.access_key_secret {
            lemma_field_salt(text);
        }
        if none_salted(entries) {
            assert(!salted(credential_at(entries, 0)));
            assert(!salted(credential_at(entries, 1)));
            assert(none_salted(rest));
        }
        if first_salted(entries, k) {
            if k >= 2 {
                assert(!salted(credential_at(entries, 0)));
                assert(!salted(credential_at(entries, 1)));
                assert(credential_at(rest, k - 2) == credential_at(entries, k));
                assert forall|j: int| 0 <= j < k - 2 implies !salted(#[trigger] credential_at(rest, j)) by {
                    assert(!salted(credential_at(entries, j + 2)));
                }
                assert(first_salted(rest, k - 2));
            } else if k == 1 {
                assert(!salted(credential_at(entries, 0)));
            }
        }
    }
}

/// There is a first credential that starts with `ENC:v1:`, or none does.
pub proof fn lemma_first_salted(entries: Seq<NamedSettings>, n: int)
    requires
        0 <= n <= 2 * entries.len(),
    ensures
        (forall|j: int| 0 <= j < n ==> !salted(#[trigger] credential_at(entries, j))) || exists|k: int|
            0 <= k < n && #[trigger] first_salted(entries, k),
    decreases n,
{
    if n > 0 {
        lemma_first_salted(entries, n - 1);
        if forall|j: int| 0 <= j < n - 1 ==> !salted(#[trigger] credential_at(entries, j)) {
            if salted(credential_at(entries, n - 1)) {
                assert(first_salted(entries, n - 1));
            }
        }
    }
}

/// The salt of profiles is the one that the first credential that starts with `ENC:v1:` embeds. It is an
/// error that there is no such credential, or that it embeds none.
pub proof fn law_extract_salt_from_profiles(
    profiles: Profiles,
    k: int,
    result: Result<Vec<u8>, Error>,
)
    requires
        call_ensures(crate::sealing::extract_salt_from_profiles, (&profiles,), result),
    ensures
        none_salted(profiles@) ==> (result matches Err(err) && crate::laws::errors::decryption_error(
            err,
            "no encrypted fields found with embedded salt (expected format: ENC:v1:salt:ciphertext)"@,
        )),
        first_salted(profiles@, k) ==> match result {
            Ok(salt) => embeds(credential_at(profiles@, k)->Some_0, salt@),
            Err(err) => err is ProfileDecryption && forall|salt: Seq<u8>|
                !#[trigger] embeds(credential_at(profiles@, k)->Some_0, salt),
        },
        result is Ok ==> exists|j: int| #[trigger] first_salted(profiles@, j),
{
    let entries = profiles@;
    lemma_entries_salt(entries, k);
    lemma_first_salted(entries, 2 * entries.len() as int);
    if let (Err(err), Err(fault)) = (result, crate::sealing::entries_salt(entries)) {
        crate::laws::errors::law_reported_messages(err, fault);
    }
    if first_salted(entries, k) {
        lemma_field_salt(credential_at(entries, k)->Some_0);
    }
    if none_salted(entries) {
        assert(result is Err);
    }
}

// ---------------------------------------------------------------------------------------------
// Encryption
// ---------------------------------------------------------------------------------------------

/// A credential is there and none before it.
pub open spec fn first_present(entries: Seq<NamedSettings>, k: int) -> bool {
    &&& 0 <= k < 2 * entries.len()
    &&& credential_at(entries, k) is Some
    &&& forall|j: int| 0 <= j < k ==> (#[trigger] credential_at(entries, j)) is None
}

/// A text can be encrypted: it has at most 274877906816 bytes, and the base64 text of its payload fits in
/// memory.
pub open spec fn encryptable(credential: Option<Seq<char>>) -> bool {
    credential matches Some(text) ==> crate::laws::fields::byte_len(text) <= 274_877_906_816 && (
    crate::laws::fields::byte_len(text) + 30) / 3 * 4 <= isize::MAX
}

/// `sealed` is the encrypted credential of `plain`: it is there if and only if `plain` is, it is read to
/// `plain`, and it starts with `ENC:v1:` and embeds `salt` if and only if it is the first.
pub open spec fn credential_seals(
    plain: Option<Seq<char>>,
    sealed: Option<Seq<char>>,
    key: Seq<u8>,
    salt: Seq<u8>,
    first: bool,
) -> bool {
    match (plain, sealed) {
        (None, None) => true,
        (Some(plaintext), Some(text)) => {
            &&& crate::laws::fields::opens_to(text, key, plaintext)
            &&& first <==> "ENC:v1:"@.is_prefix_of(text)
            &&& first ==> embeds(text, salt)
        },
        _ => false,
    }
}

/// A first credential, of those before `i`, is there if and only if one is.
pub proof fn lemma_any_credential(entries: Seq<NamedSettings>, i: int)
    requires
        0 <= i <= entries.len(),
    ensures
        crate::sealing::any_credential(entries.take(i)) <==> exists|j: int|
            0 <= j < 2 * i && (#[trigger] credential_at(entries, j)) is Some,
{
    let part = entries.take(i);
    if crate::sealing::any_credential(part) {
        let n = choose|n: int|
            0 <= n < part.len() && crate::sealing::has_credential(#[trigger] part[n].settings);
        assert(part[n] == entries[n]);
        assert((2 * n) / 2 == n && (2 * n) % 2 == 0);
        assert((2 * n + 1) / 2 == n && (2 * n + 1) % 2 == 1);
        assert(credential_at(entries, 2 * n) is Some || credential_at(entries, 2 * n + 1) is Some);
    }
    if exists|j: int| 0 <= j < 2 * i && (#[trigger] credential_at(entries, j)) is Some {
        let j = choose|j: int| 0 <= j < 2 * i && (#[trigger] credential_at(entries, j)) is Some;
        assert(part[j / 2] == entries[j / 2]);
        assert(crate::sealing::has_credential(part[j / 2].settings));
    }
}

/// Encrypted profiles, credential by credential.
pub proof fn lemma_sealed_entries(
    plain: Seq<NamedSettings>,
    sealed: Seq<NamedSettings>,
    key: Seq<u8>,
    salt: Seq<u8>,
    k: int,
)
    requires
        crate::sealing::entries_sealed(plain, sealed, key, salt),
    ensures
        sealed.len() == plain.len(),
        0 <= k < 2 * plain.len() ==> {
            &&& sealed[k / 2].name == plain[k / 2].name
            &&& same_but_credentials(sealed[k / 2].settings, plain[k / 2].settings)
            &&& credential_seals(
                credential_at(plain, k),
                credential_at(sealed, k),
                key,
                salt,
                first_present(plain, k),
            )
        },
{
    if 0 <= k < 2 * plain.len() {
        let i = k / 2;
        assert(crate::sealing::entry_sealed(plain, sealed, key, salt, i));
        lemma_any_credential(plain, i);
        assert((2 * i) / 2 == i && (2 * i) % 2 == 0);
        let embedded = if k % 2 == 0 {
            crate::sealing::any_credential(plain.take(i))
        } else {
            crate::sealing::any_credential(plain.take(i)) || plain[i].settings.access_key_id is Some
        };
        if let (Some(plaintext), Some(text)) = (credential_at(plain, k), credential_at(sealed, k)) {
            assert(embedded <==> exists|j: int|
                0 <= j < k && (#[trigger] credential_at(plain, j)) is Some) by {
                if k % 2 == 1 {
                    assert(credential_at(plain, 2 * i) == plain[i].settings.access_key_id);
                    if exists|j: int| 0 <= j < k && (#[trigger] credential_at(plain, j)) is Some {
                        let j = choose|j: int|
                            0 <= j < k && (#[trigger] credential_at(plain, j)) is Some;
                        if j < 2 * i {
                            assert(0 <= j < 2 * i && credential_at(plain, j) is Some);
                        } else {
                            assert(j == 2 * i);
                        }
                    }
                }
            }
            assert(first_present(plain, k) <==> !embedded);
            crate::laws::fields::lemma_any_field(text, key);
            lemma_field_salt(text);
        }
    }
}

/// All profiles can be encrypted.
pub open spec fn all_encryptable(entries: Seq<NamedSettings>, salt: Seq<u8>) -> bool {
    &&& forall|k: int| 0 <= k < 2 * entries.len() ==> encryptable(#[trigger] credential_at(entries, k))
    &&& (exists|k: int| 0 <= k < 2 * entries.len() && (#[trigger] credential_at(entries, k)) is Some)
        ==> (salt.len() + 2) / 3 * 4 <= isize::MAX
}

/// Credentials and a salt of up to 1.6 thousand million bytes each can be encrypted on every machine.
pub open spec fn all_short(entries: Seq<NamedSettings>, salt: Seq<u8>) -> bool {
    &&& forall|k: int|
        0 <= k < 2 * entries.len() ==> ((#[trigger] credential_at(entries, k)) matches Some(text)
            ==> crate::laws::fields::byte_len(text) <= 1_600_000_000)
    &&& salt.len() <= 1_600_000_000
}

/// Which profiles can be encrypted, over their credentials.
pub proof fn lemma_sealable(entries: Seq<NamedSettings>, salt: Seq<u8>)
    ensures
        crate::sealing::entries_sealable(entries, salt) <==> all_encryptable(entries, salt),
        all_short(entries, salt) ==> all_encryptable(entries, salt),
{
    lemma_any_credential(entries, entries.len() as int);
    assert(entries.take(entries.len() as int) =~= entries);
    if crate::sealing::entries_sealable(entries, salt) {
        assert forall|k: int| 0 <= k < 2 * entries.len() implies encryptable(
            #[trigger] credential_at(entries, k),
        ) by {
            assert(crate::sealing::settings_sealable(entries[k / 2].settings));
        }
    }
    if all_encryptable(entries, salt) {
        assert forall|i: int| 0 <= i < entries.len() implies crate::sealing::settings_sealable(
            #[trigger] entries[i].settings,
        ) by {
            assert((2 * i) / 2 == i && (2 * i) % 2 == 0);
            assert((2 * i + 1) / 2 == i && (2 * i + 1) % 2 == 1);
            assert(encryptable(credential_at(entries, 2 * i)));
            assert(encryptable(credential_at(entries, 2 * i + 1)));
        }
    }
    if all_short(entries, salt) {
        assert forall|k: int| 0 <= k < 2 * entries.len() implies encryptable(
            #[trigger] credential_at(entries, k),
        ) by {}
    }
}

/// All profiles are encrypted if and only if all their credentials can be; credentials of up to 1.6
/// thousand million bytes always can. Each credential that is there is then read to what it was, the
/// first embeds the salt and no other does, and nothing else changes.
pub proof fn law_encrypt_all_profiles(
    profiles: &mut Profiles,
    key: &[u8; 32],
    salt: &[u8],
    done: Result<(), Error>,
    k: int,
)
    requires
        old(profiles).wf(),
        call_ensures(crate::sealing::encrypt_all_profiles, (profiles, key, salt), done),
    ensures
        final(profiles).wf(),
        done is Ok <==> all_encryptable(old(profiles)@, salt@),
        all_short(old(profiles)@, salt@) ==> done is Ok,
        done matches Err(err) ==> crate::laws::errors::encryption_error(
            err,
            "field encryption failed: aead::Error"@,
        ),
        done is Ok ==> final(profiles)@.len() == old(profiles)@.len(),
        done is Ok && 0 <= k < 2 * old(profiles)@.len() ==> {
            &&& final(profiles)@[k / 2].name == old(profiles)@[k / 2].name
            &&& same_but_credentials(
                final(profiles)@[k / 2].settings,
                old(profiles)@[k / 2].settings,
            )
            &&& credential_seals(
                credential_at(old(profiles)@, k),
                credential_at(final(profiles)@, k),
                key@,
                salt@,
                first_present(old(profiles)@, k),
            )
        },
{
    lemma_sealable(old(profiles)@, salt@);
    match done {
        Ok(_) => lemma_sealed_entries(old(profiles)@, final(profiles)@, key@, salt@, k),
        Err(err) => crate::laws::errors::law_reported_messages(
            err,
            crate::error::Fault::PlaintextOverlong,
        ),
    }
}

} // verus!
