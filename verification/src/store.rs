//! The profile store: named profiles, the default one, and the key that their credentials are
//! encrypted with.
//!
//! The store is kept in memory. What an operation changes is handed out as a `ProfileStoreFile` with
//! encrypted credentials, to be written to disk; a file that was read is handed in to be restored.
use crate::crypto::KEY_SIZE;
use crate::error::{Error, Fault};
use crate::keys::{EncryptionMetadata, SystemContext, SALT_SIZE};
use crate::outside::SecretString;
use crate::profile::StoredProfile;
use crate::profiles::{NamedSettings, Profiles};
use vstd::prelude::*;

verus! {

// ---------------------------------------------------------------------------------------------
// Files
// ---------------------------------------------------------------------------------------------

/// What a store's file says, as contracts speak of it.
#[verifier::ext_equal]
pub struct FileView {
    pub default: Option<Seq<char>>,
    pub profiles: Seq<NamedSettings>,
}

/// The default profile, if there is one, is among the profiles.
pub open spec fn default_known(file: FileView) -> bool {
    file.default matches Some(name) ==> crate::profiles::has_name(file.profiles, name)
}

/// The same file, without a default profile that is not among the profiles.
pub open spec fn normalized(file: FileView) -> FileView {
    if default_known(file) {
        file
    } else {
        FileView { default: None, ..file }
    }
}

/// A store's file: the name of the default profile, and the profiles.
#[derive(Debug)]
pub struct ProfileStoreFile {
    pub default: Option<String>,
    pub profiles: Profiles,
}

impl View for ProfileStoreFile {
    type V = FileView;

    open spec fn view(&self) -> FileView {
        FileView {
            default: crate::profile::optional_text(self.default),
            profiles: self.profiles@,
        }
    }
}

impl Default for ProfileStoreFile {
    fn default() -> (file: Self)
        ensures
            file@ == (FileView { default: None, profiles: Seq::empty() }),
            file.wf(),
    {
        ProfileStoreFile { default: None, profiles: Profiles::new() }
    }
}

impl Clone for ProfileStoreFile {
    fn clone(&self) -> (copy: Self)
        ensures
            copy@ == self@,
    {
        ProfileStoreFile {
            default: crate::profile::copy_optional(&self.default),
            profiles: self.profiles.clone(),
        }
    }
}

impl ProfileStoreFile {
    /// The names of the profiles stand in their order.
    pub open spec fn wf(self) -> bool {
        self.profiles.wf()
    }

    /// Drops a default profile that is not among the profiles.
    pub fn normalize_default(&mut self)
        requires
            old(self).wf(),
        ensures
            final(self).wf(),
            final(self)@ == normalized(old(self)@),
    {
        let should_clear = match &self.default {
            Some(name) => !self.profiles.contains(name.as_str()),
            None => false,
        };
        if should_clear {
            self.default = None;
        }
    }
}

// ---------------------------------------------------------------------------------------------
// Stores
// ---------------------------------------------------------------------------------------------

/// A store, as contracts speak of it.
#[verifier::ext_equal]
pub struct StoreView {
    pub path: Seq<char>,
    pub file: FileView,
    pub key: Seq<u8>,
    pub salt: Seq<u8>,
}

/// The store at `path` that `file` restores to with a key and its salt: with its credentials
/// decrypted, and its default profile dropped where it is not among the profiles.
pub open spec fn restored_with_key(
    path: Seq<char>,
    file: FileView,
    key: Seq<u8>,
    salt: Seq<u8>,
) -> Result<StoreView, Fault> {
    match crate::sealing::opened_entries(file.profiles, key) {
        Err(fault) => Err(fault),
        Ok(profiles) => Ok(
            StoreView { path, file: normalized(FileView { profiles, ..file }), key, salt },
        ),
    }
}

/// The store at `path` that `file` restores to under a master password: with the key that the
/// password gives for the salt embedded in the file.
pub open spec fn restored(path: Seq<char>, file: FileView, password: Seq<char>) -> Result<
    StoreView,
    Fault,
> {
    match crate::sealing::entries_salt(file.profiles) {
        Err(fault) => Err(fault),
        Ok(salt) => match crate::keys::master_key(password, salt) {
            Err(fault) => Err(fault),
            Ok(key) => restored_with_key(path, file, key, salt),
        },
    }
}

/// The empty store at `path` whose key a master password gives for `salt`.
pub open spec fn created(path: Seq<char>, password: Seq<char>, salt: Seq<u8>) -> Result<
    StoreView,
    Fault,
> {
    match crate::keys::master_key(password, salt) {
        Err(fault) => Err(fault),
        Ok(key) => Ok(
            StoreView { path, file: FileView { default: None, profiles: Seq::empty() }, key, salt },
        ),
    }
}

/// Making a store ended as `model` says.
pub open spec fn store_outcome(
    result: Result<ProfileStore, Error>,
    model: Result<StoreView, Fault>,
) -> bool {
    match (result, model) {
        (Ok(store), Ok(expected)) => store@ == expected && store.wf(),
        (Err(err), Err(fault)) => err.reports(fault),
        _ => false,
    }
}

/// `payload` is restored to `store`, under each master password that gives the store's key.
pub open spec fn restores_to(payload: FileView, store: StoreView) -> bool {
    forall|password: Seq<char>|
        (crate::keys::master_key(password, store.salt) matches Ok(key) && key == store.key) ==> (
        #[trigger] restored(store.path, payload, password) matches Ok(found) && found == store)
}

/// Restoring `file` got over the derivation of the key if and only if the password and the embedded
/// salt have lengths from which a key is derived.
pub open spec fn key_settled(
    file: FileView,
    password: Seq<char>,
    result: Result<ProfileStore, Error>,
) -> bool {
    crate::sealing::entries_salt(file.profiles) matches Ok(salt) ==> {
        &&& crate::keys::master_key(password, salt) is Ok <==> crate::keys::key_derivable(
            password,
            salt,
        )
        &&& result is Ok ==> crate::keys::key_derivable(password, salt)
    }
}

/// What is to be written of `store`: its file with all credentials encrypted, which is restored to
/// the store if it has a credential. It is refused if and only if a credential is too long to be
/// encrypted.
pub open spec fn persists(store: StoreView, result: Result<ProfileStoreFile, Error>) -> bool {
    match result {
        Ok(payload) => {
            &&& crate::sealing::entries_sealable(store.file.profiles, store.salt)
            &&& payload.wf()
            &&& payload@.default == normalized(store.file).default
            &&& crate::sealing::entries_sealed(
                store.file.profiles,
                payload@.profiles,
                store.key,
                store.salt,
            )
            &&& crate::sealing::any_credential(store.file.profiles) ==> restores_to(payload@, store)
        },
        Err(err) => {
            &&& !crate::sealing::entries_sealable(store.file.profiles, store.salt)
            &&& err.reports(Fault::PlaintextOverlong)
        },
    }
}

/// `after` is `before` under the key that a new master password gives for `salt`, and `result` is
/// what is to be written of it; where there is no such key, nothing changes.
pub open spec fn rekeyed(
    before: StoreView,
    after: StoreView,
    password: Seq<char>,
    salt: Seq<u8>,
    result: Result<ProfileStoreFile, Error>,
) -> bool {
    match crate::keys::master_key(password, salt) {
        Err(fault) => {
            &&& !crate::keys::key_derivable(password, salt)
            &&& after == before
            &&& result matches Err(err) && err.reports(fault)
        },
        Ok(key) => {
            &&& crate::keys::key_derivable(password, salt)
            &&& after == (StoreView { key, salt, ..before })
            &&& persists(after, result)
        },
    }
}

/// What is written of a store with a credential is restored to that store, under each master
/// password that gives the store's key.
pub proof fn law_persisted_store_restores(
    store: StoreView,
    payload: FileView,
    password: Seq<char>,
)
    requires
        default_known(store.file),
        crate::sealing::any_credential(store.file.profiles),
        payload.default == store.file.default,
        crate::sealing::entries_sealed(store.file.profiles, payload.profiles, store.key, store.salt),
        crate::keys::master_key(password, store.salt) matches Ok(key) && key == store.key,
    ensures
        restored(store.path, payload, password) matches Ok(found) && found == store,
{
    crate::sealing::law_sealed_entries_keep_salt(
        store.file.profiles,
        payload.profiles,
        store.key,
        store.salt,
    );
    crate::sealing::law_sealed_entries_open(
        store.file.profiles,
        payload.profiles,
        store.key,
        store.salt,
    );
}

/// Profiles as a file keeps them: it does not say which of them are anonymous.
pub open spec fn written_entries(entries: Seq<NamedSettings>) -> Seq<NamedSettings> {
    Seq::new(
        entries.len(),
        |i: int|
            NamedSettings { name: entries[i].name, settings: entries[i].settings.written() },
    )
}

/// What is read back of a file that was written: it does not say which profiles are anonymous.
pub open spec fn written(file: FileView) -> FileView {
    FileView { profiles: written_entries(file.profiles), ..file }
}

/// A file keeps the credentials.
proof fn lemma_written_credentials(entries: Seq<NamedSettings>)
    ensures
        crate::sealing::any_credential(written_entries(entries)) == crate::sealing::any_credential(
            entries,
        ),
{
    let kept = written_entries(entries);
    if crate::sealing::any_credential(entries) {
        let i = choose|i: int|
            0 <= i < entries.len() && crate::sealing::has_credential(#[trigger] entries[i].settings);
        assert(crate::sealing::has_credential(kept[i].settings));
    }
    if crate::sealing::any_credential(kept) {
        let i = choose|i: int|
            0 <= i < kept.len() && crate::sealing::has_credential(#[trigger] kept[i].settings);
        assert(crate::sealing::has_credential(entries[i].settings));
    }
}

/// What is read back of the file of a store with a credential is restored to that store, apart from
/// which profiles are anonymous, under each master password that gives the store's key.
pub proof fn law_file_restores_store(store: StoreView, payload: FileView, password: Seq<char>)
    requires
        default_known(store.file),
        crate::sealing::any_credential(store.file.profiles),
        payload.default == store.file.default,
        crate::sealing::entries_sealed(store.file.profiles, payload.profiles, store.key, store.salt),
        crate::keys::master_key(password, store.salt) matches Ok(key) && key == store.key,
    ensures
        restored(store.path, written(payload), password) matches Ok(found) && found == (StoreView {
            file: written(store.file),
            ..store
        }),
{
    let plain = store.file.profiles;
    let sealed = payload.profiles;
    let kept = StoreView { file: written(store.file), ..store };
    lemma_written_credentials(plain);
    assert forall|i: int| 0 <= i < plain.len() implies #[trigger] crate::sealing::entry_sealed(
        written_entries(plain),
        written_entries(sealed),
        store.key,
        store.salt,
        i,
    ) by {
        assert(crate::sealing::entry_sealed(plain, sealed, store.key, store.salt, i));
        lemma_written_credentials(plain.take(i));
        assert(written_entries(plain).take(i) =~= written_entries(plain.take(i)));
    }
    if let Some(name) = store.file.default {
        let i = choose|i: int| 0 <= i < plain.len() && #[trigger] plain[i].name == name;
        assert(written_entries(plain)[i].name == name);
    }
    law_persisted_store_restores(kept, written(payload), password);
}

/// A store that was made or restored under a master password is restored under the same password
/// from what is written of it later, as long as it has a credential and its key is not changed.
pub proof fn law_store_reopens(
    password: Seq<char>,
    salt: Seq<u8>,
    file: FileView,
    start: StoreView,
    store: StoreView,
    payload: ProfileStoreFile,
)
    requires
        created(start.path, password, salt) == Ok::<StoreView, Fault>(start) || restored(
            start.path,
            file,
            password,
        ) == Ok::<StoreView, Fault>(start),
        store.path == start.path,
        store.key == start.key,
        store.salt == start.salt,
        default_known(store.file),
        crate::sealing::any_credential(store.file.profiles),
        persists(store, Ok(payload)),
    ensures
        restored(store.path, payload@, password) matches Ok(found) && found == store,
        restored(store.path, written(payload@), password) matches Ok(found) && found == (StoreView {
            file: written(store.file),
            ..store
        }),
{
    law_file_restores_store(store, payload@, password);
}

/// What is written of a store without credentials holds no salt, and is not restored.
pub proof fn law_store_without_credentials_is_not_restored(
    store: StoreView,
    payload: FileView,
    password: Seq<char>,
)
    requires
        !crate::sealing::any_credential(store.file.profiles),
        crate::sealing::entries_sealed(store.file.profiles, payload.profiles, store.key, store.salt),
    ensures
        restored(store.path, payload, password) matches Err(fault) && fault is NoSalt,
{
    let sealed = payload.profiles;
    if crate::sealing::any_credential(sealed) {
        let i = choose|i: int|
            0 <= i < sealed.len() && crate::sealing::has_credential(#[trigger] sealed[i].settings);
        assert(crate::sealing::entry_sealed(
            store.file.profiles,
            sealed,
            store.key,
            store.salt,
            i,
        ));
        assert(crate::sealing::has_credential(store.file.profiles[i].settings));
    }
    crate::sealing::law_no_credentials_no_salt(sealed);
}

/// What is written of a store with a credential after a change of its key is restored to that store
/// under the new master password.
pub proof fn law_rekeyed_store_restores(
    before: StoreView,
    after: StoreView,
    password: Seq<char>,
    salt: Seq<u8>,
    payload: ProfileStoreFile,
)
    requires
        crate::sealing::any_credential(before.file.profiles),
        rekeyed(before, after, password, salt, Ok(payload)),
    ensures
        restored(before.path, payload@, password) matches Ok(found) && found == after,
        after.file == before.file,
{
}

/// What is read back of the file of a store with a credential after a change of its key is restored to
/// that store, apart from which profiles are anonymous, under the new master password.
pub proof fn law_rekeyed_file_restores_store(
    before: StoreView,
    after: StoreView,
    password: Seq<char>,
    salt: Seq<u8>,
    payload: ProfileStoreFile,
)
    requires
        default_known(before.file),
        crate::sealing::any_credential(before.file.profiles),
        rekeyed(before, after, password, salt, Ok(payload)),
    ensures
        restored(before.path, written(payload@), password) matches Ok(found) && found == (StoreView {
            file: written(before.file),
            ..after
        }),
{
    law_file_restores_store(after, payload@, password);
}

/// A profile store.
#[derive(Debug)]
pub struct ProfileStore {
    path: String,
    file: ProfileStoreFile,
    encryption: EncryptionMetadata,
}

impl View for ProfileStore {
    type V = StoreView;

    closed spec fn view(&self) -> StoreView {
        StoreView {
            path: self.path@,
            file: self.file@,
            key: self.encryption.key_view(),
            salt: self.encryption.salt_view(),
        }
    }
}

impl Clone for ProfileStore {
    fn clone(&self) -> (copy: Self)
        ensures
            copy@ == self@,
    {
        ProfileStore {
            path: self.path.clone(),
            file: self.file.clone(),
            encryption: self.encryption.clone(),
        }
    }
}

impl ProfileStore {
    /// The names of the profiles stand in their order, and the default profile is among them.
    pub open spec fn wf(self) -> bool {
        &&& crate::profiles::in_name_order(self@.file.profiles)
        &&& default_known(self@.file)
    }

    /// Makes an empty store with a given salt.
    pub fn create_with_salt(path: String, password: &SecretString, salt: [u8; SALT_SIZE]) -> (store:
        Result<ProfileStore, Error>)
        ensures
            store_outcome(store, created(path@, password@, salt@)),
            store is Ok <==> crate::keys::key_derivable(password@, salt@),
    {
        match crate::keys::derive_master_key(password, &salt) {
            Err(err) => Err(err),
            Ok(key) => {
                let encryption = EncryptionMetadata::new(key, vstd::slice::slice_to_vec(&salt));
                Ok(ProfileStore { path, file: ProfileStoreFile::default(), encryption })
            },
        }
    }

    /// Makes an empty store with a random salt.
    pub fn create(path: String, password: &SecretString) -> (store: Result<ProfileStore, Error>)
        ensures
            exists|salt: Seq<u8>|
                salt.len() == SALT_SIZE && store_outcome(
                    store,
                    #[trigger] created(path@, password@, salt),
                ),
            store is Ok <==> vstd::utf8::encode_utf8(password@).len() <= 0xFFFF_FFFF,
    {
        let salt = crate::keys::generate_salt();
        let store = Self::create_with_salt(path, password, salt);
        assert(store_outcome(store, created(path@, password@, salt@)));
        store
    }

    /// Restores a store from its file.
    pub fn restore(path: String, file: ProfileStoreFile, password: &SecretString) -> (store: Result<
        ProfileStore,
        Error,
    >)
        requires
            file.wf(),
        ensures
            store_outcome(store, restored(path@, file@, password@)),
            key_settled(file@, password@, store),
    {
        let salt = match crate::sealing::extract_salt_from_profiles(&file.profiles) {
            Ok(salt) => salt,
            Err(err) => {
                return Err(err);
            },
        };
        let key = match crate::keys::derive_master_key(password, salt.as_slice()) {
            Ok(key) => key,
            Err(err) => {
                return Err(err);
            },
        };
        Self::restore_with_key(path, file, key, salt)
    }

    /// Restores a store from its file, with the key that its credentials are encrypted with and the
    /// salt that the key was derived with.
    pub fn restore_with_key(
        path: String,
        file: ProfileStoreFile,
        key: [u8; KEY_SIZE],
        salt: Vec<u8>,
    ) -> (store: Result<ProfileStore, Error>)
        requires
            file.wf(),
        ensures
            store_outcome(store, restored_with_key(path@, file@, key@, salt@)),
    {
        match crate::sealing::decrypt_all_profiles(file.profiles, &key) {
            Err(err) => Err(err),
            Ok(profiles) => {
                let mut opened = ProfileStoreFile { default: file.default, profiles };
                opened.normalize_default();
                Ok(
                    ProfileStore {
                        path,
                        file: opened,
                        encryption: EncryptionMetadata::new(key, salt),
                    },
                )
            },
        }
    }

    /// The text of the store's path.
    pub fn path(&self) -> (path: &str)
        ensures
            path@ == self@.path,
    {
        self.path.as_str()
    }

    /// The profile of a name.
    pub fn profile(&self, name: &str) -> (profile: Option<&StoredProfile>)
        requires
            self.wf(),
        ensures
            match profile {
                Some(profile) => crate::profiles::settings_of(self@.file.profiles, name@) == Some(
                    profile@,
                ),
                None => crate::profiles::settings_of(self@.file.profiles, name@) is None,
            },
    {
        self.file.profiles.get(name)
    }

    /// A copy of the profile of a name. It is an error that there is none.
    pub fn get_profile(&self, name: &str) -> (profile: Result<StoredProfile, Error>)
        requires
            self.wf(),
        ensures
            match (profile, crate::profiles::settings_of(self@.file.profiles, name@)) {
                (Ok(profile), Some(settings)) => profile@ == settings,
                (Err(err), None) => err matches Error::ProfileNotFound { name: missing } && missing@
                    == name@,
                _ => false,
            },
    {
        match self.profile(name) {
            Some(profile) => Ok(profile.clone()),
            None => Err(Error::ProfileNotFound { name: name.to_string() }),
        }
    }

    /// The names of all profiles, in their order.
    pub fn available_profiles(&self) -> (names: Vec<String>)
        ensures
            names@.len() == self@.file.profiles.len(),
            forall|i: int|
                0 <= i < names@.len() ==> (#[trigger] names@[i])@ == self@.file.profiles[i].name,
    {
        self.file.profiles.names()
    }

    /// The name of the default profile.
    pub fn default_profile(&self) -> (name: Option<&str>)
        ensures
            match name {
                Some(name) => self@.file.default == Some(name@),
                None => self@.file.default is None,
            },
    {
        match &self.file.default {
            Some(name) => Some(name.as_str()),
            None => None,
        }
    }

    /// What is to be written of the store: a copy of its file with all credentials encrypted.
    pub fn persist(&self) -> (payload: Result<ProfileStoreFile, Error>)
        requires
            self.wf(),
        ensures
            persists(self@, payload),
    {
        let mut payload = self.file.clone();
        payload.normalize_default();
        let mut profiles = payload.profiles;
        match crate::sealing::encrypt_all_profiles(
            &mut profiles,
            self.encryption.key(),
            self.encryption.salt(),
        ) {
            Ok(_) => {
                let payload = ProfileStoreFile { default: payload.default, profiles };
                proof {
                    if crate::sealing::any_credential(self@.file.profiles) {
                        assert forall|password: Seq<char>|
                            (crate::keys::master_key(password, self@.salt) matches Ok(key) && key
                                == self@.key) implies (#[trigger] restored(
                            self@.path,
                            payload@,
                            password,
                        ) matches Ok(found) && found == self@) by {
                            law_persisted_store_restores(self@, payload@, password);
                        }
                    }
                }
                Ok(payload)
            },
            Err(err) => Err(err),
        }
    }

    /// Puts a profile under a name, in place of the one that was there, and makes it the default one
    /// if that is asked for. Returns what is to be written.
    pub fn save_profile(&mut self, name: String, profile: StoredProfile, make_default: bool) -> (
    payload: Result<ProfileStoreFile, Error>)
        requires
            old(self).wf(),
        ensures
            final(self).wf(),
            crate::profiles::placed(
                old(self)@.file.profiles,
                final(self)@.file.profiles,
                (NamedSettings { name: name@, settings: profile@ }),
            ),
            crate::profiles::settings_of(final(self)@.file.profiles, name@) == Some(profile@),
            forall|other: Seq<char>|
                other != name@ ==> #[trigger] crate::profiles::settings_of(
                    final(self)@.file.profiles,
                    other,
                ) == crate::profiles::settings_of(old(self)@.file.profiles, other),
            final(self)@.file.default == (if make_default {
                Some(name@)
            } else {
                old(self)@.file.default
            }),
            final(self)@.path == old(self)@.path,
            final(self)@.key == old(self)@.key,
            final(self)@.salt == old(self)@.salt,
            persists(final(self)@, payload),
    {
        if make_default {
            self.file.default = Some(name.clone());
        }
        self.file.profiles.insert(name, profile);
        proof {
            let before = old(self)@.file.profiles;
            let after = self@.file.profiles;
            if let Some(default) = self@.file.default {
                if default != name@ {
                    assert(crate::profiles::settings_of(before, default) is Some);
                    assert(crate::profiles::settings_of(after, default) is Some);
                }
            }
        }
        self.persist()
    }

    /// Takes the profile of a name away; where it was the default one, there is none any more. It is
    /// an error that there is no such profile. Returns what is to be written.
    pub fn delete_profile(&mut self, name: &str) -> (payload: Result<ProfileStoreFile, Error>)
        requires
            old(self).wf(),
        ensures
            final(self).wf(),
            final(self)@.path == old(self)@.path,
            final(self)@.key == old(self)@.key,
            final(self)@.salt == old(self)@.salt,
            if crate::profiles::has_name(old(self)@.file.profiles, name@) {
                &&& exists|i: int|
                    0 <= i < old(self)@.file.profiles.len() && old(self)@.file.profiles[i].name
                        == name@ && final(self)@.file.profiles
                        == #[trigger] old(self)@.file.profiles.remove(i)
                &&& crate::profiles::settings_of(final(self)@.file.profiles, name@) is None
                &&& forall|other: Seq<char>|
                    other != name@ ==> #[trigger] crate::profiles::settings_of(
                        final(self)@.file.profiles,
                        other,
                    ) == crate::profiles::settings_of(old(self)@.file.profiles, other)
                &&& final(self)@.file.default == (if old(self)@.file.default == Some(name@) {
                    None
                } else {
                    old(self)@.file.default
                })
                &&& persists(final(self)@, payload)
            } else {
                &&& final(self)@ == old(self)@
                &&& payload matches Err(err)
                &&& err matches Error::ProfileNotFound { name: missing }
                &&& missing@ == name@
            },
    {
        if !self.file.profiles.remove(name) {
            return Err(Error::ProfileNotFound { name: name.to_string() });
        }
        let was_default = match &self.file.default {
            Some(default) => *default == name.to_string(),
            None => false,
        };
        if was_default {
            self.file.default = None;
        }
        proof {
            let before = old(self)@.file.profiles;
            let after = self@.file.profiles;
            if let Some(default) = self@.file.default {
                assert(default != name@);
                assert(crate::profiles::settings_of(before, default) is Some);
                assert(crate::profiles::settings_of(after, default) is Some);
            }
        }
        self.persist()
    }

    /// Makes the profile of a name the default one, or none. It is an error that there is no such
    /// profile. Returns what is to be written.
    pub fn set_default_profile(&mut self, name: Option<String>) -> (payload: Result<
        ProfileStoreFile,
        Error,
    >)
        requires
            old(self).wf(),
        ensures
            final(self).wf(),
            match name {
                Some(name) if !crate::profiles::has_name(old(self)@.file.profiles, name@) => {
                    &&& final(self)@ == old(self)@
                    &&& payload matches Err(err)
                    &&& err matches Error::ProfileNotFound { name: missing }
                    &&& missing@ == name@
                },
                _ => {
                    &&& final(self)@ == (StoreView {
                        file: FileView {
                            default: crate::profile::optional_text(name),
                            ..old(self)@.file
                        },
                        ..old(self)@
                    })
                    &&& persists(final(self)@, payload)
                },
            },
    {
        if let Some(candidate) = &name {
            if !self.file.profiles.contains(candidate.as_str()) {
                return Err(Error::ProfileNotFound { name: candidate.clone() });
            }
        }
        self.file.default = name;
        self.persist()
    }

    /// Changes to the key that a master password gives for a given salt. Returns what is to be
    /// written.
    pub fn rekey(&mut self, password: &SecretString, salt: [u8; SALT_SIZE]) -> (payload: Result<
        ProfileStoreFile,
        Error,
    >)
        requires
            old(self).wf(),
        ensures
            final(self).wf(),
            rekeyed(old(self)@, final(self)@, password@, salt@, payload),
    {
        match crate::keys::derive_master_key(password, &salt) {
            Err(err) => Err(err),
            Ok(key) => {
                self.encryption = EncryptionMetadata::new(key, vstd::slice::slice_to_vec(&salt));
                self.persist()
            },
        }
    }

    /// Changes the key: to the one that a master password, the explicit one or else the automatic
    /// one, gives for a random salt. Returns what is to be written.
    pub fn set_encryption(
        &mut self,
        master_password: Option<SecretString>,
        context: &SystemContext,
    ) -> (payload: Result<ProfileStoreFile, Error>)
        requires
            old(self).wf(),
        ensures
            final(self).wf(),
            exists|salt: Seq<u8>|
                salt.len() == SALT_SIZE && #[trigger] rekeyed(
                    old(self)@,
                    final(self)@,
                    crate::keys::resolved_password(master_password, old(self)@.path, *context),
                    salt,
                    payload,
                ),
            master_password matches Some(secret) ==> exists|salt: Seq<u8>|
                salt.len() == SALT_SIZE && #[trigger] rekeyed(
                    old(self)@,
                    final(self)@,
                    secret@,
                    salt,
                    payload,
                ),
    {
        let password = crate::keys::resolve_master_password(
            master_password,
            self.path.as_str(),
            context,
        );
        let salt = crate::keys::generate_salt();
        let payload = self.rekey(&password, salt);
        assert(rekeyed(old(self)@, self@, password@, salt@, payload));
        payload
    }
}

} // verus!
