//! Where a store stands and how its file is replaced.
use crate::files::{StepOutcome, StoreLocation, TempFile, WriteStep, WrittenFile};
use vstd::prelude::*;

verus! {

/// The default location is the path that the first variable gives, whatever the second one and the home
/// directory are; or else the one that the second gives; the home directory and the current directory
/// are used only where neither is set.
pub proof fn law_default_location(
    profile_path: Option<String>,
    config: Option<String>,
    has_home_dir: bool,
    location: StoreLocation,
)
    requires
        call_ensures(
            crate::files::default_store_path,
            (profile_path, config, has_home_dir),
            location,
        ) || call_ensures(
            crate::store::ProfileStore::default_path,
            (profile_path, config, has_home_dir),
            location,
        ),
    ensures
        profile_path matches Some(path) ==> (location matches StoreLocation::Given(given) && given@
            == path@),
        profile_path is None ==> (config matches Some(path) ==> (location matches StoreLocation::Given(
            given,
        ) && given@ == path@)),
        location is Given <==> profile_path is Some || config is Some,
        profile_path is None && config is None && has_home_dir ==> (
        location matches StoreLocation::UnderHome(parts) && parts@.len() == 3 && parts@[0]@
            == ".config"@ && parts@[1]@ == "storify"@ && parts@[2]@ == "profiles.toml"@),
        profile_path is None && config is None && !has_home_dir ==> (
        location matches StoreLocation::UnderCurrentDir(parts) && parts@.len() == 1 && parts@[0]@
            == "storify-profiles.toml"@),
{
    if profile_path is None && config is None {
        match location {
            StoreLocation::UnderHome(parts) => {
                let texts = crate::files::texts(parts@);
                assert(texts.len() == 3);
                assert(texts[0] == parts@[0]@ && texts[1] == parts@[1]@ && texts[2] == parts@[2]@);
            },
            StoreLocation::UnderCurrentDir(parts) => {
                let texts = crate::files::texts(parts@);
                assert(texts.len() == 1);
                assert(texts[0] == parts@[0]@);
            },
            _ => {},
        }
    }
}

/// The two variables are the ones that users set.
pub proof fn law_variable_names()
    ensures
        crate::files::PROFILE_PATH_VARIABLE@ == "STORIFY_PROFILE_PATH"@,
        crate::files::CONFIG_VARIABLE@ == "STORIFY_CONFIG"@,
{
}

/// A backup is called what its file is called, with `.bak` behind it.
pub proof fn law_backup_name(file_name: Option<&str>, backup: String)
    requires
        call_ensures(crate::files::backup_file_name, (file_name,), backup),
    ensures
        file_name matches Some(name) ==> backup@ == name@ + ".bak"@,
        file_name is None ==> backup@ == "profiles.toml"@ + ".bak"@,
{
}

/// A temporary file is called what its file is called, between a dot and `.tmp-`, with 32 hexadecimal
/// digits behind it.
pub proof fn law_temp_name(file_name: Option<&str>, temp: String)
    requires
        call_ensures(crate::files::temp_file_name, (file_name,), temp),
    ensures
        exists|id: Seq<char>|
            {
                &&& id.len() == 32
                &&& forall|i: int|
                    0 <= i < 32 ==> '0' <= #[trigger] id[i] <= '9' || 'a' <= id[i] <= 'f'
                &&& file_name matches Some(name) ==> temp@ == "."@ + name@ + ".tmp-"@ + id
                &&& file_name is None ==> temp@ == "."@ + "storify"@ + ".tmp-"@ + id
            },
{
    let id = choose|id: Seq<char>|
        {
            &&& temp@ == #[trigger] crate::files::temp_name(file_name, id)
            &&& id.len() == 32
            &&& forall|i: int|
                0 <= i < id.len() ==> '0' <= #[trigger] id[i] <= '9' || 'a' <= id[i] <= 'f'
        };
    assert(id.len() == 32);
}

/// The same of a given id.
pub proof fn law_temp_name_with(file_name: Option<&str>, id: &str, temp: String)
    requires
        call_ensures(crate::files::temp_file_name_with, (file_name, id), temp),
    ensures
        file_name matches Some(name) ==> temp@ == "."@ + name@ + ".tmp-"@ + id@,
        file_name is None ==> temp@ == "."@ + "storify"@ + ".tmp-"@ + id@,
{
}

/// A temporary file is to be removed if and only if it is there and was not kept; its path stays.
pub proof fn law_temp_file(
    path: String,
    file: TempFile,
    kept: TempFile,
    exists: bool,
    due: bool,
    due_kept: bool,
    found: &str,
    found_kept: &str,
)
    requires
        call_ensures(TempFile::new, (path,), file),
        call_ensures(TempFile::keep, (file,), kept),
        call_ensures(TempFile::cleanup_due, (&file, exists), due),
        call_ensures(TempFile::cleanup_due, (&kept, exists), due_kept),
        call_ensures(TempFile::path, (&file,), found),
        call_ensures(TempFile::path, (&kept,), found_kept),
    ensures
        due == exists,
        !due_kept,
        found@ == path@,
        found_kept@ == path@,
{
}

/// The first step opens the temporary file. What follows a step that went well: the temporary file is
/// written, then synced, then the target is looked for; a target that is there is copied to the backup,
/// which is restricted; then the temporary file is renamed, and that is all. What fails ends it, with
/// the file that the step was about; what has ended stays so.
pub proof fn law_steps(first: WriteStep, step: WriteStep, outcome: StepOutcome, next: WriteStep)
    requires
        call_ensures(WriteStep::first, (), first),
        call_ensures(WriteStep::next, (step, outcome), next),
    ensures
        first is OpenTemp,
        step is Done ==> next is Done,
        step is Failed ==> next == step,
        outcome is Failed ==> match step {
            WriteStep::OpenTemp | WriteStep::WriteTemp | WriteStep::SyncTemp => next
                == WriteStep::Failed(WrittenFile::Temp),
            WriteStep::CopyToBackup | WriteStep::RestrictBackup => next == WriteStep::Failed(
                WrittenFile::Backup,
            ),
            WriteStep::LookForTarget | WriteStep::RenameTemp => next == WriteStep::Failed(
                WrittenFile::Target,
            ),
            _ => true,
        },
        !(outcome is Failed) ==> {
            &&& step is OpenTemp ==> next is WriteTemp
            &&& step is WriteTemp ==> next is SyncTemp
            &&& step is SyncTemp ==> next is LookForTarget
            &&& step is LookForTarget && outcome is Absent ==> next is RenameTemp
            &&& step is LookForTarget && outcome is Succeeded ==> next is CopyToBackup
            &&& step is CopyToBackup ==> next is RestrictBackup
            &&& step is RestrictBackup ==> next is RenameTemp
            &&& step is RenameTemp ==> next is Done
        },
{
}

/// The file that a step is about is the one that its failure names.
pub proof fn law_step_file(step: WriteStep, file: WrittenFile, next: WriteStep)
    requires
        call_ensures(WriteStep::file, (step,), file),
        call_ensures(WriteStep::next, (step, StepOutcome::Failed), next),
    ensures
        step is Done || next == WriteStep::Failed(file),
        step is Done ==> file is Target,
{
}

} // verus!
