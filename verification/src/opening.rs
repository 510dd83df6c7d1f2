//! Opening a store: what is to be done with what stands at its path.
//!
//! Whether something stands there, and what it holds, is found out by the caller; so is what a
//! file's text says. The steps between are here.
use crate::error::Error;
use crate::keys::{SystemContext, SALT_SIZE};
use crate::outside::SecretString;
use crate::store::{ProfileStore, ProfileStoreFile};
use vstd::prelude::*;

verus! {

/// How to open a store: its path, if not the default one, and its master password, if not the
/// automatic one.
#[derive(Debug)]
pub struct ProfileStoreOpenOptions {
    pub path: Option<String>,
    pub master_password: Option<SecretString>,
}

impl Clone for ProfileStoreOpenOptions {
    fn clone(&self) -> (copy: Self)
        ensures
            crate::profile::optional_text(copy.path) == crate::profile::optional_text(self.path),
            match (copy.master_password, self.master_password) {
                (Some(copied), Some(password)) => copied@ == password@,
                (None, None) => true,
                _ => false,
            },
    {
        ProfileStoreOpenOptions {
            path: crate::profile::copy_optional(&self.path),
            master_password: match &self.master_password {
                Some(password) => Some(password.clone()),
                None => None,
            },
        }
    }
}

impl Default for ProfileStoreOpenOptions {
    fn default() -> (options: Self)
        ensures
            options.path is None,
            options.master_password is None,
    {
        ProfileStoreOpenOptions { path: None, master_password: None }
    }
}

/// What stands at a store's path: a directory, nothing, or a file with some bytes.
#[derive(Debug)]
pub enum PathState {
    Directory,
    Missing,
    File(Vec<u8>),
}

/// The text of a store's file, and what is needed to restore the store once the text is parsed.
#[derive(Debug)]
pub struct StoreText {
    path: String,
    text: String,
    password: SecretString,
}

impl StoreText {
    /// The path of the store.
    pub closed spec fn path_view(self) -> Seq<char> {
        self.path@
    }

    /// The text of the file.
    pub closed spec fn text_view(self) -> Seq<char> {
        self.text@
    }

    /// The master password of the store.
    pub closed spec fn password_view(self) -> Seq<char> {
        self.password@
    }

    /// The text of the file.
    pub fn text(&self) -> (text: &str)
        ensures
            text@ == self.text_view(),
    {
        self.text.as_str()
    }

    /// Restores the store from what the text says.
    pub fn restore(self, file: ProfileStoreFile) -> (store: Result<ProfileStore, Error>)
        requires
            file.wf(),
        ensures
            crate::store::store_outcome(
                store,
                crate::store::restored(self.path_view(), file@, self.password_view()),
            ),
            crate::store::key_settled(file@, self.password_view(), store),
    {
        ProfileStore::restore(self.path, file, &self.password)
    }
}

/// How far a store is opened: it is there, or its file's text is to be parsed first.
#[derive(Debug)]
pub enum Opening {
    Ready(ProfileStore),
    Stored(StoreText),
}

/// `result` is an empty store, made with some salt; it is refused if and only if the master password
/// is too long.
pub open spec fn opens_empty(
    path: Seq<char>,
    password: Seq<char>,
    result: Result<Opening, Error>,
) -> bool {
    &&& result is Ok <==> vstd::utf8::encode_utf8(password).len() <= 0xFFFF_FFFF
    &&& exists|salt: Seq<u8>|
        salt.len() == SALT_SIZE && (match (
            result,
            #[trigger] crate::store::created(path, password, salt),
        ) {
            (Ok(Opening::Ready(store)), Ok(expected)) => store@ == expected && store.wf(),
            (Err(err), Err(fault)) => err.reports(fault),
            _ => false,
        })
}

/// `result` is how far a store at `path` is opened under a master password, for what stands there:
/// a directory is refused; without a file, or with an empty one, the store is empty; a file's bytes
/// have to be text, which is to be parsed.
pub open spec fn opens(
    path: Seq<char>,
    password: Seq<char>,
    state: PathState,
    result: Result<Opening, Error>,
) -> bool {
    match state {
        PathState::Directory => result matches Err(Error::ProfileStoreIo { path: shown, message })
            && shown@ == path && message@ == "profile store path points to a directory"@,
        PathState::Missing => opens_empty(path, password, result),
        PathState::File(raw) => if raw@.len() == 0 {
            opens_empty(path, password, result)
        } else if vstd::utf8::valid_utf8(raw@) {
            &&& result matches Ok(Opening::Stored(stored))
            &&& stored.path_view() == path
            &&& stored.text_view() == vstd::utf8::decode_utf8(raw@)
            &&& stored.password_view() == password
        } else {
            result matches Err(Error::ProfileStoreUtf8 { path: shown, source }) && shown@ == path
                && source == crate::outside::utf8_failure(raw@)
        },
    }
}

/// The path that options choose.
pub open spec fn chosen_path(path: Option<String>, default_path: Seq<char>) -> Seq<char> {
    match path {
        Some(path) => path@,
        None => default_path,
    }
}

impl ProfileStore {
    /// Makes an empty store, as a step of opening.
    fn open_empty(path: String, password: &SecretString) -> (opening: Result<Opening, Error>)
        ensures
            opens_empty(path@, password@, opening),
    {
        match ProfileStore::create(path, password) {
            Ok(store) => Ok(Opening::Ready(store)),
            Err(err) => Err(err),
        }
    }

    /// Opens the store at the options' path, or else at the default one, where `state` says what
    /// stands there.
    pub fn open_with_options(
        options: ProfileStoreOpenOptions,
        default_path: String,
        state: PathState,
        context: &SystemContext,
    ) -> (opening: Result<Opening, Error>)
        ensures
            opens(
                chosen_path(options.path, default_path@),
                crate::keys::resolved_password(
                    options.master_password,
                    chosen_path(options.path, default_path@),
                    *context,
                ),
                state,
                opening,
            ),
    {
        let path = match options.path {
            Some(path) => path,
            None => default_path,
        };
        let password = crate::keys::resolve_master_password(
            options.master_password,
            path.as_str(),
            context,
        );
        match state {
            PathState::Directory => Err(
                Error::ProfileStoreIo {
                    path,
                    message: "profile store path points to a directory".to_string(),
                },
            ),
            PathState::Missing => Self::open_empty(path, &password),
            PathState::File(raw) => {
                if raw.len() == 0 {
                    return Self::open_empty(path, &password);
                }
                match String::from_utf8(raw) {
                    Ok(text) => Ok(Opening::Stored(StoreText { path, text, password })),
                    Err(source) => Err(Error::ProfileStoreUtf8 { path, source }),
                }
            },
        }
    }

    /// Opens the store at the default path with its automatic password.
    pub fn open_default(default_path: String, state: PathState, context: &SystemContext) -> (opening:
        Result<Opening, Error>)
        ensures
            opens(
                default_path@,
                crate::keys::auto_password(context.account_name(), default_path@),
                state,
                opening,
            ),
    {
        Self::open_with_options(ProfileStoreOpenOptions::default(), default_path, state, context)
    }

    /// Opens the store at a path, or else at the default one, with its automatic password.
    pub fn open(
        path: Option<String>,
        default_path: String,
        state: PathState,
        context: &SystemContext,
    ) -> (opening: Result<Opening, Error>)
        ensures
            opens(
                chosen_path(path, default_path@),
                crate::keys::auto_password(
                    context.account_name(),
                    chosen_path(path, default_path@),
                ),
                state,
                opening,
            ),
    {
        let options = ProfileStoreOpenOptions { path, master_password: None };
        Self::open_with_options(options, default_path, state, context)
    }

    /// Opens the store at a path, or else at the default one, with a master password, or else the
    /// automatic one.
    pub fn open_with_password(
        path: Option<String>,
        master_password: Option<SecretString>,
        default_path: String,
        state: PathState,
        context: &SystemContext,
    ) -> (opening: Result<Opening, Error>)
        ensures
            opens(
                chosen_path(path, default_path@),
                crate::keys::resolved_password(
                    master_password,
                    chosen_path(path, default_path@),
                    *context,
                ),
                state,
                opening,
            ),
    {
        let options = ProfileStoreOpenOptions { path, master_password };
        Self::open_with_options(options, default_path, state, context)
    }
}

} // verus!
