//! What opening a store does with what stands at its path.
use crate::error::Error;
use crate::keys::SystemContext;
use crate::opening::{Opening, PathState, ProfileStoreOpenOptions, StoreText};
use crate::outside::SecretString;
use crate::store::{ProfileStore, ProfileStoreFile};
use vstd::prelude::*;

verus! {

/// `result` is an empty store at `path` under the key of all of a password and some salt of 16 bytes. It is
/// refused if and only if the password has more than 4294967295 bytes.
pub open spec fn opens_as_empty(
    result: Result<Opening, Error>,
    path: Seq<char>,
    password: Seq<char>,
) -> bool {
    &&& result is Ok <==> vstd::utf8::encode_utf8(password).len() <= 4_294_967_295
    &&& result matches Ok(opening) ==> opening is Ready
    &&& exists|salt: Seq<u8>|
        salt.len() == 16 && #[trigger] crate::laws::store::makes(
            made(result),
            path,
            password,
            salt,
        )
}

/// The store that an opening ended with, if it did.
pub open spec fn made(result: Result<Opening, Error>) -> Result<ProfileStore, Error> {
    match result {
        Ok(Opening::Ready(store)) => Ok(store),
        Ok(Opening::Stored(_)) => Ok(arbitrary()),
        Err(err) => Err(err),
    }
}

/// `result` is how far the store at `path` is opened under a password: a directory is refused; where nothing
/// stands, or an empty file, the store is empty; a file that is not empty is refused if and only if it
/// is not UTF-8, and its text is to be parsed otherwise, with path and password kept.
pub open spec fn opens_as(
    result: Result<Opening, Error>,
    path: Seq<char>,
    password: Seq<char>,
    state: PathState,
) -> bool {
    &&& state is Directory ==> (result matches Err(Error::ProfileStoreIo { path: shown, message })
        && shown@ == path && message@ == "profile store path points to a directory"@)
    &&& state is Missing ==> opens_as_empty(result, path, password)
    &&& state matches PathState::File(raw) ==> {
        &&& raw@.len() == 0 ==> opens_as_empty(result, path, password)
        &&& raw@.len() > 0 && vstd::utf8::valid_utf8(raw@) ==> (result matches Ok(Opening::Stored(
            stored,
        )) && stored.path_view() == path && stored.password_view() == password
            && vstd::utf8::encode_utf8(stored.text_view()) == raw@)
        &&& raw@.len() > 0 && !vstd::utf8::valid_utf8(raw@) ==> (result matches Err(
            Error::ProfileStoreUtf8 { path: shown, source },
        ) && shown@ == path && source == crate::outside::utf8_failure(raw@))
    }
}

/// How far a store is opened, over what stands at its path.
proof fn lemma_opens(
    result: Result<Opening, Error>,
    path: Seq<char>,
    password: Seq<char>,
    state: PathState,
)
    requires
        crate::opening::opens(path, password, state, result),
    ensures
        opens_as(result, path, password, state),
{
    if let PathState::File(raw) = state {
        if vstd::utf8::valid_utf8(raw@) {
            vstd::utf8::decode_utf8_encode_utf8(raw@);
        }
    }
    let empty = match state {
        PathState::Missing => true,
        PathState::File(raw) => raw@.len() == 0,
        PathState::Directory => false,
    };
    if empty {
        let salt = choose|salt: Seq<u8>|
            salt.len() == 16 && (match (
                result,
                #[trigger] crate::store::created(path, password, salt),
            ) {
                (Ok(Opening::Ready(store)), Ok(expected)) => store@ == expected && store.wf(),
                (Err(err), Err(fault)) => err.reports(fault),
                _ => false,
            });
        crate::laws::store::lemma_created(made(result), path, password, salt);
        assert(crate::laws::store::makes(made(result), path, password, salt));
    }
}

/// A store is opened at the path of the options, or else at the default one, under the options' master
/// password itself, or else the automatic password of that path.
pub proof fn law_open_with_options(
    options: ProfileStoreOpenOptions,
    default_path: String,
    state: PathState,
    context: SystemContext,
    result: Result<Opening, Error>,
    path: &str,
    automatic: SecretString,
)
    requires
        call_ensures(
            ProfileStore::open_with_options,
            (options, default_path, state, &context),
            result,
        ),
        options.path matches Some(given) ==> path@ == given@,
        options.path is None ==> path@ == default_path@,
        call_ensures(crate::keys::derive_auto_password, (path, &context), automatic),
    ensures
        options.master_password matches Some(secret) ==> opens_as(result, path@, secret@, state),
        options.master_password is None ==> opens_as(result, path@, automatic@, state),
{
    lemma_opens(
        result,
        path@,
        crate::keys::resolved_password(options.master_password, path@, context),
        state,
    );
}

/// The same of `open_with_password`, which is given a path and a master password.
pub proof fn law_open_with_password(
    given_path: Option<String>,
    master_password: Option<SecretString>,
    default_path: String,
    state: PathState,
    context: SystemContext,
    result: Result<Opening, Error>,
    path: &str,
    automatic: SecretString,
)
    requires
        call_ensures(
            ProfileStore::open_with_password,
            (given_path, master_password, default_path, state, &context),
            result,
        ),
        given_path matches Some(given) ==> path@ == given@,
        given_path is None ==> path@ == default_path@,
        call_ensures(crate::keys::derive_auto_password, (path, &context), automatic),
    ensures
        master_password matches Some(secret) ==> opens_as(result, path@, secret@, state),
        master_password is None ==> opens_as(result, path@, automatic@, state),
{
    lemma_opens(
        result,
        path@,
        crate::keys::resolved_password(master_password, path@, context),
        state,
    );
}

/// `open` and `open_default` open under the automatic password of the path, which is the default one
/// where none is given.
pub proof fn law_open_with_automatic_password(
    given_path: Option<String>,
    default_path: String,
    state: PathState,
    context: SystemContext,
    result: Result<Opening, Error>,
    path: &str,
    automatic: SecretString,
)
    requires
        call_ensures(
            ProfileStore::open,
            (given_path, default_path, state, &context),
            result,
        ) || (given_path is None && call_ensures(
            ProfileStore::open_default,
            (default_path, state, &context),
            result,
        )),
        given_path matches Some(given) ==> path@ == given@,
        given_path is None ==> path@ == default_path@,
        call_ensures(crate::keys::derive_auto_password, (path, &context), automatic),
    ensures
        opens_as(result, path@, automatic@, state),
{
    lemma_opens(result, path@, automatic@, state);
}

/// A store whose file was read is restored at the path and under the password that it was opened with,
/// as the credentials in the file say.
pub proof fn law_opened_text_is_restored(
    stored: StoreText,
    text: &str,
    file: ProfileStoreFile,
    result: Result<ProfileStore, Error>,
    k: int,
)
    requires
        file.wf(),
        call_ensures(StoreText::text, (&stored,), text),
        call_ensures(StoreText::restore, (stored, file), result),
    ensures
        text@ == stored.text_view(),
        crate::laws::store::restores(result, stored.path_view(), file@, stored.password_view(), k),
{
    crate::laws::store::lemma_restored(
        result,
        stored.path_view(),
        file@,
        stored.password_view(),
        k,
    );
}

/// A store that is written and opened again under an explicit master password that gives its key is the
/// same store, but for who is anonymous, if it has a credential.
pub proof fn law_reopened_store(
    store: ProfileStore,
    payload: ProfileStoreFile,
    path: String,
    secret: SecretString,
    default_path: String,
    state: PathState,
    context: SystemContext,
    stored: StoreText,
    file: ProfileStoreFile,
    result: Result<ProfileStore, Error>,
)
    requires
        store.wf(),
        call_ensures(ProfileStore::persist, (&store,), Ok::<ProfileStoreFile, Error>(payload)),
        crate::laws::store::some_credential(store@.file.profiles),
        crate::laws::keys::argon2_key(secret@, store@.salt) matches Ok(key) && key == store@.key,
        path@ == store@.path,
        call_ensures(
            ProfileStore::open_with_password,
            (Some(path), Some(secret), default_path, state, &context),
            Ok::<Opening, Error>(Opening::Stored(stored)),
        ),
        file.wf(),
        crate::laws::store::read_back(payload@, file@),
        call_ensures(StoreText::restore, (stored, file), result),
    ensures
        result matches Ok(again) && again@.path == store@.path && again@.key == store@.key
            && again@.salt == store@.salt && crate::laws::store::read_back(
            store@.file,
            again@.file,
        ),
{
    lemma_opens(
        Ok(Opening::Stored(stored)),
        path@,
        crate::keys::resolved_password(Some(secret), path@, context),
        state,
    );
    crate::laws::store::lemma_reopens(store@, payload, path@, file@, secret@, result);
}

/// Options are copied with path and master password; default options have neither.
pub proof fn law_options(
    options: ProfileStoreOpenOptions,
    copy: ProfileStoreOpenOptions,
    default: ProfileStoreOpenOptions,
)
    requires
        call_ensures(ProfileStoreOpenOptions::clone, (&options,), copy),
        call_ensures(ProfileStoreOpenOptions::default, (), default),
    ensures
        crate::laws::profiles::same_text(options.path, copy.path),
        options.master_password matches Some(secret) ==> (copy.master_password matches Some(copied)
            && copied@ == secret@),
        options.master_password is None ==> copy.master_password is None,
        default.path is None,
        default.master_password is None,
{
    crate::laws::profiles::law_optional_text(options.path);
    crate::laws::profiles::law_optional_text(copy.path);
}

} // verus!
