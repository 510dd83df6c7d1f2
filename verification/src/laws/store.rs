//! What a store keeps, writes and is restored to.
use crate::error::Error;
use crate::keys::SystemContext;
use crate::outside::{KdfFailure, SecretString};
use crate::profile::{Settings, StoredProfile};
use crate::profiles::NamedSettings;
use crate::store::{FileView, ProfileStore, ProfileStoreFile, StoreView};
use vstd::prelude::*;

verus! {

// ---------------------------------------------------------------------------------------------
// Files
// ---------------------------------------------------------------------------------------------

/// One of the profiles has this name.
pub open spec fn named(entries: Seq<NamedSettings>, name: Seq<char>) -> bool {
    exists|i: int| 0 <= i < entries.len() && #[trigger] entries[i].name == name
}

/// A default profile stays if and only if one of the profiles has its name.
pub open spec fn default_settled(
    before: Option<Seq<char>>,
    entries: Seq<NamedSettings>,
    after: Option<Seq<char>>,
) -> bool {
    match before {
        None => after is None,
        Some(name) => if named(entries, name) {
            after == Some(name)
        } else {
            after is None
        },
    }
}

/// A default profile stays if and only if one of the profiles has its name; the profiles stay.
pub proof fn law_normalize_default(file: &mut ProfileStoreFile)
    requires
        old(file).wf(),
        call_ensures(ProfileStoreFile::normalize_default, (file,), ()),
    ensures
        final(file).wf(),
        final(file)@.profiles == old(file)@.profiles,
        default_settled(old(file)@.default, old(file)@.profiles, final(file)@.default),
{
    lemma_default(old(file)@);
}

/// The default profile of a file, over the names.
proof fn lemma_default(file: FileView)
    ensures
        crate::store::normalized(file).profiles == file.profiles,
        default_settled(file.default, file.profiles, crate::store::normalized(file).default),
        crate::store::default_known(file) <==> (file.default matches Some(name) ==> named(
            file.profiles,
            name,
        )),
{
    if let Some(name) = file.default {
        if crate::profiles::has_name(file.profiles, name) {
            let i = choose|i: int|
                0 <= i < file.profiles.len() && #[trigger] file.profiles[i].name == name;
            assert(file.profiles[i].name == name);
            assert(named(file.profiles, name));
        }
        if named(file.profiles, name) {
            let i = choose|i: int|
                0 <= i < file.profiles.len() && #[trigger] file.profiles[i].name == name;
            assert(file.profiles[i].name == name);
        }
    }
}

/// A store that is well formed has a default profile only among its profiles.
pub proof fn law_default_is_among_profiles(store: ProfileStore, name: Option<&str>)
    requires
        store.wf(),
        call_ensures(ProfileStore::default_profile, (&store,), name),
    ensures
        name matches Some(name) ==> named(store@.file.profiles, name@),
{
    lemma_default(store@.file);
}

// ---------------------------------------------------------------------------------------------
// Making and restoring a store
// ---------------------------------------------------------------------------------------------

/// `result` is an empty store at `path` with the key that Argon2id derives from `password` and `salt`,
/// or an error that quotes Argon2id.
pub open spec fn makes(
    result: Result<ProfileStore, Error>,
    path: Seq<char>,
    password: Seq<char>,
    salt: Seq<u8>,
) -> bool {
    match (result, crate::laws::keys::argon2_key(password, salt)) {
        (Ok(store), Ok(key)) => {
            &&& store.wf()
            &&& store@.path == path
            &&& store@.key == key
            &&& store@.salt == salt
            &&& store@.file.default is None
            &&& store@.file.profiles.len() == 0
        },
        (Err(err), Err(failure)) => quotes_argon2(err, failure),
        _ => false,
    }
}

/// `err` quotes why Argon2id derived no key.
pub open spec fn quotes_argon2(err: Error, failure: KdfFailure) -> bool {
    match failure {
        KdfFailure::Costs(source) => crate::laws::errors::encryption_error_of(
            err,
            "invalid argon2 parameters: "@,
            source,
        ),
        KdfFailure::Inputs(source) => crate::laws::errors::encryption_error_of(
            err,
            "failed to derive master key: "@,
            source,
        ),
    }
}

/// A new store, over Argon2id.
pub proof fn lemma_created(
    result: Result<ProfileStore, Error>,
    path: Seq<char>,
    password: Seq<char>,
    salt: Seq<u8>,
)
    ensures
        crate::store::store_outcome(result, crate::store::created(path, password, salt)) ==> makes(
            result,
            path,
            password,
            salt,
        ),
{
    crate::laws::keys::lemma_master_key(password, salt);
    if let (Err(err), Err(fault)) = (result, crate::store::created(path, password, salt)) {
        crate::laws::errors::law_reported_messages(err, fault);
    }
}

/// A new store with a given salt is empty, at its path, under the key of all of the password and the
/// salt. It is made if and only if the password has at most 4294967295 bytes.
pub proof fn law_create_with_salt(
    path: String,
    password: SecretString,
    salt: [u8; 16],
    result: Result<ProfileStore, Error>,
)
    requires
        call_ensures(ProfileStore::create_with_salt, (path, &password, salt), result),
    ensures
        makes(result, path@, password@, salt@),
        result is Ok <==> vstd::utf8::encode_utf8(password@).len() <= 4_294_967_295,
{
    lemma_created(result, path@, password@, salt@);
    crate::laws::keys::lemma_master_key(password@, salt@);
}

/// The same of a new store, with some salt of 16 bytes.
pub proof fn law_create(path: String, password: SecretString, result: Result<ProfileStore, Error>)
    requires
        call_ensures(ProfileStore::create, (path, &password), result),
    ensures
        exists|salt: Seq<u8>| salt.len() == 16 && #[trigger] makes(result, path@, password@, salt),
        result is Ok <==> vstd::utf8::encode_utf8(password@).len() <= 4_294_967_295,
{
    let salt = choose|salt: Seq<u8>|
        salt.len() == 16 && crate::store::store_outcome(
            result,
            #[trigger] crate::store::created(path@, password@, salt),
        );
    lemma_created(result, path@, password@, salt);
}

/// `result` is the store that `file` is restored to with a key and a salt: at `path`, with both
/// credentials of each profile decrypted and all else of it kept, and with its default profile if that
/// is among the profiles. It is refused if and only if a credential is.
pub open spec fn restores_with_key(
    result: Result<ProfileStore, Error>,
    path: Seq<char>,
    file: FileView,
    key: Seq<u8>,
    salt: Seq<u8>,
) -> bool {
    &&& result is Err <==> crate::laws::sealing::any_refused(file.profiles, key)
    &&& match result {
        Ok(store) => {
            &&& store.wf()
            &&& store@.path == path
            &&& store@.key == key
            &&& store@.salt == salt
            &&& crate::laws::sealing::entries_open(file.profiles, key, store@.file.profiles)
            &&& default_settled(file.default, file.profiles, store@.file.default)
        },
        Err(err) => err is ProfileDecryption,
    }
}

/// `result` is the store that `file` is restored to under a master password and the embedded salt: with
/// the key that Argon2id derives from all of both.
pub open spec fn restores_with_salt(
    result: Result<ProfileStore, Error>,
    path: Seq<char>,
    file: FileView,
    password: Seq<char>,
    salt: Seq<u8>,
) -> bool {
    &&& match crate::laws::keys::argon2_key(password, salt) {
        Ok(key) => restores_with_key(result, path, file, key, salt),
        Err(failure) => result matches Err(err) && quotes_argon2(err, failure),
    }
    &&& crate::laws::keys::argon2_key(password, salt) is Ok <==> vstd::utf8::encode_utf8(
        password,
    ).len() <= 4_294_967_295 && 8 <= salt.len() <= 4_294_967_295
}

/// `result` is the store that `file` is restored to under a master password, where `k` is a position of
/// a credential: the salt is the one that the first credential that starts with `ENC:v1:` embeds.
pub open spec fn restores(
    result: Result<ProfileStore, Error>,
    path: Seq<char>,
    file: FileView,
    password: Seq<char>,
    k: int,
) -> bool {
    &&& crate::laws::sealing::none_salted(file.profiles) ==> (result matches Err(err)
        && crate::laws::errors::decryption_error(
        err,
        "no encrypted fields found with embedded salt (expected format: ENC:v1:salt:ciphertext)"@,
    ))
    &&& crate::laws::sealing::first_salted(file.profiles, k) ==> {
        let text = crate::laws::sealing::credential_at(file.profiles, k)->Some_0;
        &&& forall|salt: Seq<u8>| #[trigger]
            crate::laws::sealing::embeds(text, salt) ==> restores_with_salt(
                result,
                path,
                file,
                password,
                salt,
            )
        &&& (forall|salt: Seq<u8>| !#[trigger] crate::laws::sealing::embeds(text, salt)) ==> (
        result matches Err(err) && err is ProfileDecryption)
    }
    &&& result is Ok ==> exists|j: int| #[trigger]
        crate::laws::sealing::first_salted(file.profiles, j)
}

/// Names are those of the stored profiles.
proof fn lemma_same_names(stored: Seq<NamedSettings>, key: Seq<u8>, opened: Seq<NamedSettings>)
    requires
        crate::laws::sealing::entries_open(stored, key, opened),
    ensures
        forall|name: Seq<char>| #[trigger] named(opened, name) <==> named(stored, name),
{
    assert forall|name: Seq<char>| #[trigger] named(opened, name) <==> named(stored, name) by {
        if named(opened, name) {
            let i = choose|i: int| 0 <= i < opened.len() && #[trigger] opened[i].name == name;
            assert(stored[i].name == name);
        }
        if named(stored, name) {
            let i = choose|i: int| 0 <= i < stored.len() && #[trigger] stored[i].name == name;
            assert(opened[i].name == name);
        }
    }
}

/// What a file is restored to with a key, over its credentials.
pub proof fn lemma_restored_with_key(
    result: Result<ProfileStore, Error>,
    path: Seq<char>,
    file: FileView,
    key: Seq<u8>,
    salt: Seq<u8>,
)
    ensures
        crate::store::store_outcome(
            result,
            crate::store::restored_with_key(path, file, key, salt),
        ) ==> restores_with_key(result, path, file, key, salt),
{
    match result {
        Err(err) => crate::laws::sealing::lemma_opened_entries(file.profiles, key, err),
        Ok(_) => crate::laws::sealing::lemma_opened_entries(
            file.profiles,
            key,
            arbitrary::<Error>(),
        ),
    }
    if let Ok(opened) = crate::sealing::opened_entries(file.profiles, key) {
        lemma_default(FileView { profiles: opened, ..file });
        lemma_same_names(file.profiles, key, opened);
        if let Some(name) = file.default {
            assert(named(opened, name) <==> named(file.profiles, name));
        }
    }
}

/// A file is restored with a key as its credentials say.
pub proof fn law_restore_with_key(
    path: String,
    file: ProfileStoreFile,
    key: [u8; 32],
    salt: Vec<u8>,
    result: Result<ProfileStore, Error>,
)
    requires
        file.wf(),
        call_ensures(ProfileStore::restore_with_key, (path, file, key, salt), result),
    ensures
        restores_with_key(result, path@, file@, key@, salt@),
{
    lemma_restored_with_key(result, path@, file@, key@, salt@);
}

/// What a file is restored to under a master password, over its credentials.
pub proof fn lemma_restored(
    result: Result<ProfileStore, Error>,
    path: Seq<char>,
    file: FileView,
    password: Seq<char>,
    k: int,
)
    requires
        crate::store::store_outcome(result, crate::store::restored(path, file, password)),
        crate::store::key_settled(file, password, result),
    ensures
        restores(result, path, file, password, k),
{
    let entries = file.profiles;
    crate::laws::sealing::lemma_entries_salt(entries, k);
    crate::laws::sealing::lemma_first_salted(entries, 2 * entries.len() as int);
    if let (Err(err), Err(fault)) = (result, crate::store::restored(path, file, password)) {
        crate::laws::errors::law_reported_messages(err, fault);
    }
    if let Ok(salt) = crate::sealing::entries_salt(entries) {
        crate::laws::keys::lemma_master_key(password, salt);
        if let Ok(key) = crate::keys::master_key(password, salt) {
            lemma_restored_with_key(result, path, file, key, salt);
        }
    }
    if crate::laws::sealing::first_salted(entries, k) {
        let text = crate::laws::sealing::credential_at(entries, k)->Some_0;
        crate::laws::sealing::lemma_field_salt(text);
    }
}

/// A file is restored under a master password as its credentials say: one that does not open under the
/// key of the password and the embedded salt makes that an error.
pub proof fn law_restore(
    path: String,
    file: ProfileStoreFile,
    password: SecretString,
    result: Result<ProfileStore, Error>,
    k: int,
)
    requires
        file.wf(),
        call_ensures(ProfileStore::restore, (path, file, &password), result),
    ensures
        restores(result, path@, file@, password@, k),
{
    lemma_restored(result, path@, file@, password@, k);
}

// ---------------------------------------------------------------------------------------------
// What is written
// ---------------------------------------------------------------------------------------------

/// `result` is what is to be written of `store`. There is something if and only if all credentials can be
/// encrypted. It has the default profile, the names and the settings of the store; each credential that
/// is there is read to what it was, the first embeds the salt and no other does.
pub open spec fn writes(store: StoreView, result: Result<ProfileStoreFile, Error>) -> bool {
    let plain = store.file.profiles;
    &&& result is Ok <==> crate::laws::sealing::all_encryptable(plain, store.salt)
    &&& crate::laws::sealing::all_short(plain, store.salt) ==> result is Ok
    &&& match result {
        Ok(payload) => {
            &&& payload.wf()
            &&& payload@.default == store.file.default
            &&& payload@.profiles.len() == plain.len()
            &&& forall|k: int|
                0 <= k < 2 * plain.len() ==> #[trigger] credential_written(
                    store,
                    payload@.profiles,
                    k,
                )
        },
        Err(err) => crate::laws::errors::encryption_error(
            err,
            "field encryption failed: aead::Error"@,
        ),
    }
}

/// The credential at `k` of `sealed`, and what stands around it, are written of `store`.
pub open spec fn credential_written(
    store: StoreView,
    sealed: Seq<NamedSettings>,
    k: int,
) -> bool {
    let plain = store.file.profiles;
    &&& sealed[k / 2].name == plain[k / 2].name
    &&& crate::laws::sealing::same_but_credentials(sealed[k / 2].settings, plain[k / 2].settings)
    &&& crate::laws::sealing::credential_seals(
        crate::laws::sealing::credential_at(plain, k),
        crate::laws::sealing::credential_at(sealed, k),
        store.key,
        store.salt,
        crate::laws::sealing::first_present(plain, k),
    )
}

/// What is written, over the credentials.
pub proof fn lemma_writes(store: StoreView, result: Result<ProfileStoreFile, Error>)
    requires
        crate::store::default_known(store.file),
        crate::store::persists(store, result),
    ensures
        writes(store, result),
{
    let plain = store.file.profiles;
    crate::laws::sealing::lemma_sealable(plain, store.salt);
    lemma_default(store.file);
    match result {
        Ok(payload) => {
            let sealed = payload@.profiles;
            assert forall|k: int| 0 <= k < 2 * plain.len() implies #[trigger] credential_written(
                store,
                sealed,
                k,
            ) by {
                crate::laws::sealing::lemma_sealed_entries(plain, sealed, store.key, store.salt, k);
            }
        },
        Err(err) => crate::laws::errors::law_reported_messages(
            err,
            crate::error::Fault::PlaintextOverlong,
        ),
    }
}

/// What is to be written of a store.
pub proof fn law_persist(store: ProfileStore, result: Result<ProfileStoreFile, Error>)
    requires
        store.wf(),
        call_ensures(ProfileStore::persist, (&store,), result),
    ensures
        writes(store@, result),
{
    lemma_writes(store@, result);
}

/// A profile has a credential.
pub open spec fn some_credential(entries: Seq<NamedSettings>) -> bool {
    exists|k: int|
        0 <= k < 2 * entries.len() && (#[trigger] crate::laws::sealing::credential_at(
            entries,
            k,
        )) is Some
}

/// `b` is what is read back of `a` from a file, which does not say who is anonymous.
pub open spec fn read_back(a: FileView, b: FileView) -> bool {
    &&& b.default == a.default
    &&& b.profiles.len() == a.profiles.len()
    &&& forall|i: int| #![trigger a.profiles[i]] #![trigger b.profiles[i]]
        0 <= i < a.profiles.len() ==> b.profiles[i].name == a.profiles[i].name
            && b.profiles[i].settings == (Settings { anonymous: false, ..a.profiles[i].settings })
}

/// What is read back, over the model of what a file keeps.
proof fn lemma_read_back(a: FileView, b: FileView)
    ensures
        read_back(a, b) <==> b == crate::store::written(a),
{
    let kept = crate::store::written(a);
    if read_back(a, b) {
        assert forall|i: int| 0 <= i < b.profiles.len() implies b.profiles[i] == kept.profiles[i] by {
            assert(a.profiles[i].name == kept.profiles[i].name);
        }
        assert(b.profiles =~= kept.profiles);
    }
}

proof fn lemma_some_credential(entries: Seq<NamedSettings>)
    ensures
        some_credential(entries) <==> crate::sealing::any_credential(entries),
{
    crate::laws::sealing::lemma_any_credential(entries, entries.len() as int);
    assert(entries.take(entries.len() as int) =~= entries);
}

/// What `persist` hands out of a store with a credential is restored to the same store under each
/// password that gives the store's key; so is what is read back of it from a file, but for who is
/// anonymous.
pub proof fn law_persisted_store_is_restored(
    store: ProfileStore,
    payload: ProfileStoreFile,
    path: String,
    file: ProfileStoreFile,
    password: SecretString,
    result: Result<ProfileStore, Error>,
)
    requires
        store.wf(),
        call_ensures(ProfileStore::persist, (&store,), Ok::<ProfileStoreFile, Error>(payload)),
        some_credential(store@.file.profiles),
        crate::laws::keys::argon2_key(password@, store@.salt) matches Ok(key) && key == store@.key,
        path@ == store@.path,
        file.wf(),
        file@ == payload@ || read_back(payload@, file@),
        call_ensures(ProfileStore::restore, (path, file, &password), result),
    ensures
        file@ == payload@ ==> (result matches Ok(again) && again@ == store@),
        read_back(payload@, file@) ==> {
            &&& result matches Ok(again)
            &&& again@.path == store@.path
            &&& again@.key == store@.key
            &&& again@.salt == store@.salt
            &&& read_back(store@.file, again@.file)
        },
{
    lemma_reopens(store@, payload, path@, file@, password@, result);
}

/// The same of a store and what is written of it.
pub proof fn lemma_reopens(
    store: StoreView,
    payload: ProfileStoreFile,
    path: Seq<char>,
    file: FileView,
    password: Seq<char>,
    result: Result<ProfileStore, Error>,
)
    requires
        crate::store::default_known(store.file),
        crate::store::persists(store, Ok(payload)),
        some_credential(store.file.profiles),
        crate::laws::keys::argon2_key(password, store.salt) matches Ok(key) && key == store.key,
        path == store.path,
        crate::store::store_outcome(result, crate::store::restored(path, file, password)),
    ensures
        file == payload@ ==> (result matches Ok(again) && again@ == store),
        read_back(payload@, file) ==> {
            &&& result matches Ok(again)
            &&& again@.path == store.path
            &&& again@.key == store.key
            &&& again@.salt == store.salt
            &&& read_back(store.file, again@.file)
        },
{
    crate::laws::keys::lemma_master_key(password, store.salt);
    lemma_some_credential(store.file.profiles);
    lemma_read_back(payload@, file);
    crate::store::law_persisted_store_restores(store, payload@, password);
    crate::store::law_file_restores_store(store, payload@, password);
    lemma_read_back(store.file, crate::store::written(store.file));
}

// ---------------------------------------------------------------------------------------------
// Profiles of a store
// ---------------------------------------------------------------------------------------------

/// Two optional names are both absent, or both there and the same.
pub open spec fn same_name(a: Option<&str>, b: Option<&str>) -> bool {
    match (a, b) {
        (Some(a), Some(b)) => a@ == b@,
        (None, None) => true,
        _ => false,
    }
}

/// A copy of a profile is got under a name if and only if one is found there; otherwise the error names
/// what was looked for.
pub proof fn law_get_profile(
    store: ProfileStore,
    name: &str,
    found: Option<&StoredProfile>,
    result: Result<StoredProfile, Error>,
)
    requires
        store.wf(),
        call_ensures(ProfileStore::profile, (&store, name), found),
        call_ensures(ProfileStore::get_profile, (&store, name), result),
    ensures
        match (found, result) {
            (Some(profile), Ok(copy)) => crate::laws::profiles::same_profile(*profile, copy),
            (None, Err(Error::ProfileNotFound { name: missing })) => missing@ == name@,
            _ => false,
        },
{
    if let (Some(profile), Ok(copy)) = (found, result) {
        crate::laws::profiles::law_profiles_say_the_same(*profile, copy);
    }
}

/// The available names stand in the order of their bytes, and something is found under a name if and only
/// if it is one of them.
pub proof fn law_available_profiles(
    store: ProfileStore,
    names: Vec<String>,
    name: &str,
    found: Option<&StoredProfile>,
    i: int,
    j: int,
)
    requires
        store.wf(),
        call_ensures(ProfileStore::available_profiles, (&store,), names),
        call_ensures(ProfileStore::profile, (&store, name), found),
    ensures
        0 <= i < j < names@.len() ==> crate::laws::profiles::bytes_before(names@[i]@, names@[j]@),
        found is Some <==> exists|n: int| 0 <= n < names@.len() && (#[trigger] names@[n])@ == name@,
{
    let entries = store@.file.profiles;
    if 0 <= i < j < names@.len() {
        assert(names@[i]@ == entries[i].name && names@[j]@ == entries[j].name);
        assert(crate::profiles::name_less(entries[i].name, entries[j].name));
        crate::laws::profiles::law_name_order_is_byte_order(names@[i]@, names@[j]@);
    }
    if crate::profiles::has_name(entries, name@) {
        let n = choose|n: int| 0 <= n < entries.len() && #[trigger] entries[n].name == name@;
        assert(names@[n]@ == name@);
    }
    if exists|n: int| 0 <= n < names@.len() && (#[trigger] names@[n])@ == name@ {
        let n = choose|n: int| 0 <= n < names@.len() && (#[trigger] names@[n])@ == name@;
        assert(entries[n].name == name@);
    }
}

/// After a profile is saved it is found under its name, and under every other name what was found before.
/// It is the default one if that was asked for, or else the default one stays. Path, key and salt stay,
/// and what is written is the store's.
pub proof fn law_save_profile(
    store: &mut ProfileStore,
    name: String,
    profile: StoredProfile,
    make_default: bool,
    result: Result<ProfileStoreFile, Error>,
    wanted: &str,
    before: Option<&StoredProfile>,
    after: Option<&StoredProfile>,
    default_before: Option<&str>,
    default_after: Option<&str>,
)
    requires
        old(store).wf(),
        call_ensures(ProfileStore::save_profile, (store, name, profile, make_default), result),
        call_ensures(ProfileStore::profile, (&*old(store), wanted), before),
        call_ensures(ProfileStore::profile, (&*final(store), wanted), after),
        call_ensures(ProfileStore::default_profile, (&*old(store),), default_before),
        call_ensures(ProfileStore::default_profile, (&*final(store),), default_after),
    ensures
        final(store).wf(),
        wanted@ == name@ ==> (after matches Some(found) && crate::laws::profiles::same_profile(
            *found,
            profile,
        )),
        wanted@ != name@ ==> crate::laws::profiles::same_found(before, after),
        make_default ==> (default_after matches Some(default) && default@ == name@),
        !make_default ==> same_name(default_before, default_after),
        final(store)@.path == old(store)@.path,
        final(store)@.key == old(store)@.key,
        final(store)@.salt == old(store)@.salt,
        writes(final(store)@, result),
{
    lemma_writes(final(store)@, result);
    if let Some(found) = after {
        crate::laws::profiles::law_profiles_say_the_same(*found, profile);
        if let Some(other) = before {
            crate::laws::profiles::law_profiles_say_the_same(*other, *found);
        }
    }
}

/// Saving is owed where no credential of the store or the new profile, and not the salt, has more than 1.6
/// thousand million bytes.
pub proof fn law_save_profile_succeeds(
    store: &mut ProfileStore,
    name: String,
    profile: StoredProfile,
    make_default: bool,
    result: Result<ProfileStoreFile, Error>,
)
    requires
        old(store).wf(),
        call_ensures(ProfileStore::save_profile, (store, name, profile, make_default), result),
        crate::laws::sealing::all_short(old(store)@.file.profiles, old(store)@.salt),
        profile.access_key_id matches Some(id) ==> crate::laws::fields::byte_len(id@) <= 1_600_000_000,
        profile.access_key_secret matches Some(secret) ==> crate::laws::fields::byte_len(secret@)
            <= 1_600_000_000,
    ensures
        result is Ok,
{
    let before = old(store)@.file.profiles;
    let after = final(store)@.file.profiles;
    lemma_writes(final(store)@, result);
    let entry = NamedSettings { name: name@, settings: profile@ };
    crate::laws::profiles::law_optional_text(profile.access_key_id);
    crate::laws::profiles::law_optional_text(profile.access_key_secret);
    assert forall|k: int| 0 <= k < 2 * after.len() implies ((
    #[trigger] crate::laws::sealing::credential_at(after, k)) matches Some(text)
        ==> crate::laws::fields::byte_len(text) <= 1_600_000_000) by {
        let i = k / 2;
        if after[i] != entry {
            let n = lemma_placed_from(before, after, entry, i);
            assert(after[i] == before[n]);
            let old_k = 2 * n + k % 2;
            assert(old_k / 2 == n && old_k % 2 == k % 2);
            assert(crate::laws::sealing::credential_at(before, old_k)
                == crate::laws::sealing::credential_at(after, k));
        }
    }
    assert(crate::laws::sealing::all_short(after, final(store)@.salt));
}

/// Where an entry that was not placed stood before.
proof fn lemma_placed_from(
    before: Seq<NamedSettings>,
    after: Seq<NamedSettings>,
    entry: NamedSettings,
    i: int,
) -> (n: int)
    requires
        crate::profiles::placed(before, after, entry),
        0 <= i < after.len(),
        after[i] != entry,
    ensures
        0 <= n < before.len(),
        after[i] == before[n],
{
    if exists|j: int| 0 <= j <= before.len() && after == #[trigger] before.insert(j, entry) {
        let j = choose|j: int| 0 <= j <= before.len() && after == #[trigger] before.insert(j, entry);
        if i < j {
            i
        } else {
            i - 1
        }
    } else {
        i
    }
}

/// After a profile is deleted, nothing is found under its name, and under every other name what was found
/// before; the default profile stays unless it was that one. Where there was none, the error names it
/// and nothing changes.
pub proof fn law_delete_profile(
    store: &mut ProfileStore,
    name: &str,
    result: Result<ProfileStoreFile, Error>,
    there: Option<&StoredProfile>,
    wanted: &str,
    before: Option<&StoredProfile>,
    after: Option<&StoredProfile>,
    default_before: Option<&str>,
    default_after: Option<&str>,
)
    requires
        old(store).wf(),
        call_ensures(ProfileStore::delete_profile, (store, name), result),
        call_ensures(ProfileStore::profile, (&*old(store), name), there),
        call_ensures(ProfileStore::profile, (&*old(store), wanted), before),
        call_ensures(ProfileStore::profile, (&*final(store), wanted), after),
        call_ensures(ProfileStore::default_profile, (&*old(store),), default_before),
        call_ensures(ProfileStore::default_profile, (&*final(store),), default_after),
    ensures
        final(store).wf(),
        there is None ==> final(store)@ == old(store)@ && (result matches Err(
            Error::ProfileNotFound { name: missing },
        ) && missing@ == name@),
        there is Some ==> {
            &&& wanted@ == name@ ==> after is None
            &&& wanted@ != name@ ==> crate::laws::profiles::same_found(before, after)
            &&& default_before matches Some(default) ==> (default@ == name@ ==> default_after is None)
                && (default@ != name@ ==> same_name(default_before, default_after))
            &&& default_before is None ==> default_after is None
            &&& final(store)@.path == old(store)@.path
            &&& final(store)@.key == old(store)@.key
            &&& final(store)@.salt == old(store)@.salt
            &&& writes(final(store)@, result)
        },
{
    if there is Some {
        lemma_writes(final(store)@, result);
    }
    if let (Some(a), Some(b)) = (before, after) {
        crate::laws::profiles::law_profiles_say_the_same(*a, *b);
    }
}

/// A name is made the default one if and only if a profile has it, or none is made it; otherwise the error
/// names it and nothing changes. The profiles, path, key and salt stay.
pub proof fn law_set_default_profile(
    store: &mut ProfileStore,
    name: Option<String>,
    result: Result<ProfileStoreFile, Error>,
    default_after: Option<&str>,
)
    requires
        old(store).wf(),
        call_ensures(ProfileStore::set_default_profile, (store, name), result),
        call_ensures(ProfileStore::default_profile, (&*final(store),), default_after),
    ensures
        final(store).wf(),
        final(store)@.file.profiles == old(store)@.file.profiles,
        final(store)@.path == old(store)@.path,
        final(store)@.key == old(store)@.key,
        final(store)@.salt == old(store)@.salt,
        match name {
            None => default_after is None && writes(final(store)@, result),
            Some(name) => if named(old(store)@.file.profiles, name@) {
                (default_after matches Some(default) && default@ == name@) && writes(
                    final(store)@,
                    result,
                )
            } else {
                final(store)@ == old(store)@ && (result matches Err(
                    Error::ProfileNotFound { name: missing },
                ) && missing@ == name@)
            },
        },
{
    if let Some(name) = name {
        lemma_default(FileView { default: Some(name@), ..old(store)@.file });
    }
    crate::laws::profiles::law_optional_text(name);
    if !(result matches Err(Error::ProfileNotFound { .. })) {
        lemma_writes(final(store)@, result);
    } else if name is None {
        lemma_writes(final(store)@, result);
    } else if named(old(store)@.file.profiles, name->Some_0@) {
        lemma_writes(final(store)@, result);
    }
}

// ---------------------------------------------------------------------------------------------
// Changing the key
// ---------------------------------------------------------------------------------------------

/// `after` is `before` under the key that Argon2id derives from all of a password and a salt, and `result`
/// is what is written of it; where Argon2id derives none, nothing changes and the error quotes it.
pub open spec fn changes_key(
    before: StoreView,
    after: StoreView,
    password: Seq<char>,
    salt: Seq<u8>,
    result: Result<ProfileStoreFile, Error>,
) -> bool {
    &&& after.path == before.path
    &&& after.file == before.file
    &&& match crate::laws::keys::argon2_key(password, salt) {
        Ok(key) => after.key == key && after.salt == salt && writes(after, result),
        Err(failure) => after == before && (result matches Err(err) && quotes_argon2(err, failure)),
    }
    &&& crate::laws::keys::argon2_key(password, salt) is Ok <==> vstd::utf8::encode_utf8(
        password,
    ).len() <= 4_294_967_295 && 8 <= salt.len() <= 4_294_967_295
}

/// A change of the key, over Argon2id.
proof fn lemma_rekeyed(
    before: StoreView,
    after: StoreView,
    password: Seq<char>,
    salt: Seq<u8>,
    result: Result<ProfileStoreFile, Error>,
)
    requires
        crate::store::default_known(before.file),
        crate::store::rekeyed(before, after, password, salt, result),
    ensures
        changes_key(before, after, password, salt, result),
{
    crate::laws::keys::lemma_master_key(password, salt);
    match crate::keys::master_key(password, salt) {
        Ok(_) => lemma_writes(after, result),
        Err(fault) => {
            if let Err(err) = result {
                crate::laws::errors::law_reported_messages(err, fault);
            }
        },
    }
}

/// The key is changed to that of all of the password and the salt.
pub proof fn law_rekey(
    store: &mut ProfileStore,
    password: SecretString,
    salt: [u8; 16],
    result: Result<ProfileStoreFile, Error>,
)
    requires
        old(store).wf(),
        call_ensures(ProfileStore::rekey, (store, &password, salt), result),
    ensures
        final(store).wf(),
        changes_key(old(store)@, final(store)@, password@, salt@, result),
{
    lemma_rekeyed(old(store)@, final(store)@, password@, salt@, result);
}

/// The key is changed to that of the explicit master password itself, whatever the path and the user, and
/// some salt of 16 bytes; without an explicit one, to that of the automatic password of the store's
/// path.
pub proof fn law_set_encryption(
    store: &mut ProfileStore,
    master_password: Option<SecretString>,
    context: SystemContext,
    result: Result<ProfileStoreFile, Error>,
    path: &str,
    automatic: SecretString,
)
    requires
        old(store).wf(),
        call_ensures(ProfileStore::set_encryption, (store, master_password, &context), result),
        path@ == old(store)@.path,
        call_ensures(crate::keys::derive_auto_password, (path, &context), automatic),
    ensures
        final(store).wf(),
        master_password matches Some(secret) ==> exists|salt: Seq<u8>|
            salt.len() == 16 && #[trigger] changes_key(
                old(store)@,
                final(store)@,
                secret@,
                salt,
                result,
            ),
        master_password is None ==> exists|salt: Seq<u8>|
            salt.len() == 16 && #[trigger] changes_key(
                old(store)@,
                final(store)@,
                automatic@,
                salt,
                result,
            ),
{
    let password = crate::keys::resolved_password(master_password, old(store)@.path, context);
    let salt = choose|salt: Seq<u8>|
        salt.len() == 16 && #[trigger] crate::store::rekeyed(
            old(store)@,
            final(store)@,
            password,
            salt,
            result,
        );
    lemma_rekeyed(old(store)@, final(store)@, password, salt, result);
    assert(changes_key(old(store)@, final(store)@, password, salt, result));
}

/// After a change of the key to that of an explicit master password, what is written of a store with a
/// credential is restored to that store under that password.
pub proof fn law_set_encryption_then_restore(
    store: &mut ProfileStore,
    secret: SecretString,
    context: SystemContext,
    payload: ProfileStoreFile,
    path: String,
    file: ProfileStoreFile,
    password: SecretString,
    result: Result<ProfileStore, Error>,
)
    requires
        old(store).wf(),
        call_ensures(
            ProfileStore::set_encryption,
            (store, Some(secret), &context),
            Ok::<ProfileStoreFile, Error>(payload),
        ),
        some_credential(old(store)@.file.profiles),
        password@ == secret@,
        path@ == old(store)@.path,
        file.wf(),
        file@ == payload@ || read_back(payload@, file@),
        call_ensures(ProfileStore::restore, (path, file, &password), result),
    ensures
        final(store)@.file == old(store)@.file,
        file@ == payload@ ==> (result matches Ok(again) && again@ == final(store)@),
        read_back(payload@, file@) ==> (result matches Ok(again) && read_back(
            final(store)@.file,
            again@.file,
        )),
{
    let resolved = crate::keys::resolved_password(Some(secret), old(store)@.path, context);
    let outcome = Ok::<ProfileStoreFile, Error>(payload);
    let salt = choose|salt: Seq<u8>|
        salt.len() == 16 && #[trigger] crate::store::rekeyed(
            old(store)@,
            final(store)@,
            resolved,
            salt,
            outcome,
        );
    crate::laws::keys::lemma_master_key(resolved, salt);
    lemma_rekeyed(old(store)@, final(store)@, resolved, salt, outcome);
    lemma_reopens(final(store)@, payload, path@, file@, password@, result);
}

/// A copy of a store is the same store: its path, profiles, default profile, key and salt.
pub proof fn law_copied_store(
    store: ProfileStore,
    copy: ProfileStore,
    path: &str,
    copied_path: &str,
)
    requires
        store.wf(),
        call_ensures(ProfileStore::clone, (&store,), copy),
        call_ensures(ProfileStore::path, (&store,), path),
        call_ensures(ProfileStore::path, (&copy,), copied_path),
    ensures
        copy.wf(),
        copied_path@ == path@,
        copy@.path == store@.path,
        copy@.file == store@.file,
        copy@.key == store@.key,
        copy@.salt == store@.salt,
{
}

} // verus!
