//! Stored profiles, and the storage configurations that they are made from and turned into.
use vstd::prelude::*;

verus! {

/// The text of an optional string.
pub open spec fn optional_text(text: Option<String>) -> Option<Seq<char>> {
    match text {
        Some(text) => Some(text@),
        None => None,
    }
}

/// Copies an optional string.
pub(crate) fn copy_optional(text: &Option<String>) -> (copy: Option<String>)
    ensures
        optional_text(copy) == optional_text(*text),
{
    match text {
        Some(text) => Some(text.clone()),
        None => None,
    }
}

/// What a profile or a configuration says, as contracts speak of it.
#[verifier::ext_equal]
pub struct Settings {
    pub provider: Seq<char>,
    pub bucket: Seq<char>,
    pub access_key_id: Option<Seq<char>>,
    pub access_key_secret: Option<Seq<char>>,
    pub endpoint: Option<Seq<char>>,
    pub region: Option<Seq<char>>,
    pub root_path: Option<Seq<char>>,
    pub name_node: Option<Seq<char>>,
    pub anonymous: bool,
}

impl Settings {
    /// The same settings for another provider.
    pub open spec fn with_provider(self, provider: Seq<char>) -> Settings {
        Settings { provider, ..self }
    }

    /// The same settings with other credentials.
    pub open spec fn with_credentials(
        self,
        access_key_id: Option<Seq<char>>,
        access_key_secret: Option<Seq<char>>,
    ) -> Settings {
        Settings { access_key_id, access_key_secret, ..self }
    }

    /// The same settings as a file keeps them: it does not say whether a profile is anonymous.
    pub open spec fn written(self) -> Settings {
        Settings { anonymous: false, ..self }
    }
}

/// A storage provider, by the name that it is stored under.
#[derive(Debug, PartialEq, Eq)]
pub struct StorageProvider {
    name: String,
}

impl View for StorageProvider {
    type V = Seq<char>;

    closed spec fn view(&self) -> Seq<char> {
        self.name@
    }
}

impl StorageProvider {
    /// The provider of this name.
    pub fn new(name: String) -> (provider: StorageProvider)
        ensures
            provider@ == name@,
    {
        StorageProvider { name }
    }

    /// The name that the provider is stored under.
    pub fn as_str(&self) -> (name: &str)
        ensures
            name@ == self@,
    {
        self.name.as_str()
    }
}

/// How to reach a storage service.
#[derive(Debug, PartialEq, Eq)]
pub struct StorageConfig {
    pub provider: StorageProvider,
    pub bucket: String,
    pub access_key_id: Option<String>,
    pub access_key_secret: Option<String>,
    pub endpoint: Option<String>,
    pub region: Option<String>,
    pub root_path: Option<String>,
    pub name_node: Option<String>,
    pub anonymous: bool,
}

impl View for StorageConfig {
    type V = Settings;

    open spec fn view(&self) -> Settings {
        Settings {
            provider: self.provider@,
            bucket: self.bucket@,
            access_key_id: optional_text(self.access_key_id),
            access_key_secret: optional_text(self.access_key_secret),
            endpoint: optional_text(self.endpoint),
            region: optional_text(self.region),
            root_path: optional_text(self.root_path),
            name_node: optional_text(self.name_node),
            anonymous: self.anonymous,
        }
    }
}

/// `result` is what a profile that says `settings` is turned into: the provider of its provider name
/// is the one that `recognize` finds, and `prepare` makes the result of the configuration that says
/// what the profile says, for that provider. The first error of the two is handed on.
pub open spec fn configured<
    E,
    R: FnOnce(&str) -> Result<StorageProvider, E>,
    P: FnOnce(StorageConfig) -> Result<StorageConfig, E>,
>(settings: Settings, recognize: R, prepare: P, result: Result<StorageConfig, E>) -> bool {
    exists|name: &str, provider: Result<StorageProvider, E>|
        #![trigger call_ensures(recognize, (name,), provider)]
        name@ == settings.provider && call_ensures(recognize, (name,), provider) && (
        match provider {
            Err(err) => result matches Err(found) && found == err,
            Ok(provider) => prepared_from(settings.with_provider(provider@), prepare, result),
        })
}

/// `result` is what `prepare` makes of a configuration that says `settings`.
pub open spec fn prepared_from<E, P: FnOnce(StorageConfig) -> Result<StorageConfig, E>>(
    settings: Settings,
    prepare: P,
    result: Result<StorageConfig, E>,
) -> bool {
    exists|unprepared: StorageConfig|
        #![trigger call_ensures(prepare, (unprepared,), result)]
        unprepared@ == settings && call_ensures(prepare, (unprepared,), result)
}

/// A named profile's settings, as they are kept in memory and, apart from `anonymous`, on disk.
#[derive(Debug, PartialEq, Eq)]
pub struct StoredProfile {
    pub provider: String,
    pub bucket: String,
    pub access_key_id: Option<String>,
    pub access_key_secret: Option<String>,
    pub endpoint: Option<String>,
    pub region: Option<String>,
    pub root_path: Option<String>,
    pub name_node: Option<String>,
    /// Not written to disk.
    pub anonymous: bool,
}

impl View for StoredProfile {
    type V = Settings;

    open spec fn view(&self) -> Settings {
        Settings {
            provider: self.provider@,
            bucket: self.bucket@,
            access_key_id: optional_text(self.access_key_id),
            access_key_secret: optional_text(self.access_key_secret),
            endpoint: optional_text(self.endpoint),
            region: optional_text(self.region),
            root_path: optional_text(self.root_path),
            name_node: optional_text(self.name_node),
            anonymous: self.anonymous,
        }
    }
}

impl Clone for StoredProfile {
    fn clone(&self) -> (copy: Self)
        ensures
            copy@ == self@,
    {
        StoredProfile {
            provider: self.provider.clone(),
            bucket: self.bucket.clone(),
            access_key_id: copy_optional(&self.access_key_id),
            access_key_secret: copy_optional(&self.access_key_secret),
            endpoint: copy_optional(&self.endpoint),
            region: copy_optional(&self.region),
            root_path: copy_optional(&self.root_path),
            name_node: copy_optional(&self.name_node),
            anonymous: self.anonymous,
        }
    }
}

impl StoredProfile {
    /// The profile that says what a configuration says.
    pub fn from_config(config: &StorageConfig) -> (profile: Self)
        ensures
            profile@ == config@,
    {
        StoredProfile {
            provider: config.provider.as_str().to_string(),
            bucket: config.bucket.clone(),
            access_key_id: copy_optional(&config.access_key_id),
            access_key_secret: copy_optional(&config.access_key_secret),
            endpoint: copy_optional(&config.endpoint),
            region: copy_optional(&config.region),
            root_path: copy_optional(&config.root_path),
            name_node: copy_optional(&config.name_node),
            anonymous: config.anonymous,
        }
    }

    /// Turns the profile into a configuration. `recognize` finds the provider of the profile's
    /// provider name, and `prepare` completes and checks the configuration that says what the
    /// profile says, for that provider. The first error of the two is handed on.
    pub fn into_config<
        E,
        R: FnOnce(&str) -> Result<StorageProvider, E>,
        P: FnOnce(StorageConfig) -> Result<StorageConfig, E>,
    >(self, recognize: R, prepare: P) -> (config: Result<StorageConfig, E>)
        requires
            forall|name: &str| name@ == self@.provider ==> #[trigger] call_requires(recognize, (name,)),
            forall|config: StorageConfig|
                config@ == self@.with_provider(config@.provider) ==> #[trigger] call_requires(
                    prepare,
                    (config,),
                ),
        ensures
            configured(self@, recognize, prepare, config),
    {
        let name = self.provider.as_str();
        let recognized = recognize(name);
        assert(call_ensures(recognize, (name,), recognized));
        match recognized {
            Err(err) => Err(err),
            Ok(provider) => {
                let unprepared = StorageConfig {
                    provider,
                    bucket: self.bucket,
                    access_key_id: self.access_key_id,
                    access_key_secret: self.access_key_secret,
                    endpoint: self.endpoint,
                    region: self.region,
                    root_path: self.root_path,
                    name_node: self.name_node,
                    anonymous: self.anonymous,
                };
                let config = prepare(unprepared);
                assert(call_ensures(prepare, (unprepared,), config));
                config
            },
        }
    }
}

/// A profile that was made from a configuration is turned into what `prepare` makes of a configuration
/// that says the same, where `recognize` finds each provider by its name; so it is turned back into
/// that configuration where `prepare` leaves it as it is.
pub proof fn law_config_round_trip<
    E,
    R: FnOnce(&str) -> Result<StorageProvider, E>,
    P: FnOnce(StorageConfig) -> Result<StorageConfig, E>,
>(
    config: StorageConfig,
    profile: StoredProfile,
    recognize: R,
    prepare: P,
    result: Result<StorageConfig, E>,
)
    requires
        profile@ == config@,
        configured(profile@, recognize, prepare, result),
        forall|name: &str, found: Result<StorageProvider, E>| #[trigger]
            call_ensures(recognize, (name,), found) && name@ == config@.provider ==> (
            found matches Ok(provider) && provider@ == name@),
    ensures
        prepared_from(config@, prepare, result),
        (forall|unprepared: StorageConfig, found: Result<StorageConfig, E>| #[trigger]
            call_ensures(prepare, (unprepared,), found) && unprepared@ == config@ ==> (
            found matches Ok(prepared) && prepared@ == unprepared@)) ==> (result matches Ok(found)
            && found@ == config@),
{
    assert(config@.with_provider(config@.provider) == config@);
}

} // verus!
