//! Where a store stands, what the files beside it are called, and how its file is replaced.
use crate::store::ProfileStore;
use vstd::prelude::*;

verus! {

// ---------------------------------------------------------------------------------------------
// The default path
// ---------------------------------------------------------------------------------------------

/// The variable that names the store's path.
pub const PROFILE_PATH_VARIABLE: &'static str = "STORIFY_PROFILE_PATH";

/// The variable that names the store's path where the other one is not set.
pub const CONFIG_VARIABLE: &'static str = "STORIFY_CONFIG";

/// Where a store stands by default: at a given path, or at the end of some directories below the
/// home directory or the current directory.
#[derive(Debug, PartialEq, Eq)]
pub enum StoreLocation {
    Given(String),
    UnderHome(Vec<String>),
    UnderCurrentDir(Vec<String>),
}

/// The texts of some strings.
pub open spec fn texts(strings: Seq<String>) -> Seq<Seq<char>> {
    Seq::new(strings.len(), |i: int| strings[i]@)
}

/// `location` is where a store stands by default: where the first variable that is set says, or else
/// in the user's configuration directory, or else in the current directory.
pub open spec fn stands_by_default(
    location: StoreLocation,
    profile_path: Option<String>,
    config: Option<String>,
    has_home_dir: bool,
) -> bool {
    match (profile_path, config) {
        (Some(path), _) => location matches StoreLocation::Given(given) && given@ == path@,
        (None, Some(path)) => location matches StoreLocation::Given(given) && given@ == path@,
        (None, None) => if has_home_dir {
            location matches StoreLocation::UnderHome(parts) && texts(parts@) =~= seq![
                ".config"@,
                "storify"@,
                "profiles.toml"@,
            ]
        } else {
            location matches StoreLocation::UnderCurrentDir(parts) && texts(parts@) =~= seq![
                "storify-profiles.toml"@,
            ]
        },
    }
}

/// Where a store stands by default: where the first variable that is set says, or else in the
/// user's configuration directory, or else in the current directory.
pub fn default_store_path(
    profile_path: Option<String>,
    config: Option<String>,
    has_home_dir: bool,
) -> (location: StoreLocation)
    ensures
        stands_by_default(location, profile_path, config, has_home_dir),
        profile_path matches Some(path) ==> (location matches StoreLocation::Given(given) && given@
            == path@),
        profile_path is None ==> (config matches Some(path) ==> (
        location matches StoreLocation::Given(given) && given@ == path@)),
        location is Given <==> profile_path is Some || config is Some,
        location is UnderHome <==> profile_path is None && config is None && has_home_dir,
{
    if let Some(path) = profile_path {
        return StoreLocation::Given(path);
    }
    if let Some(path) = config {
        return StoreLocation::Given(path);
    }
    let mut parts: Vec<String> = Vec::new();
    if has_home_dir {
        parts.push(".config".to_string());
        parts.push("storify".to_string());
        parts.push("profiles.toml".to_string());
        StoreLocation::UnderHome(parts)
    } else {
        parts.push("storify-profiles.toml".to_string());
        StoreLocation::UnderCurrentDir(parts)
    }
}

// ---------------------------------------------------------------------------------------------
// File names
// ---------------------------------------------------------------------------------------------

/// A name, or else another.
pub open spec fn name_or(name: Option<&str>, other: Seq<char>) -> Seq<char> {
    match name {
        Some(name) => name@,
        None => other,
    }
}

/// What the backup of a file is called, beside the file.
pub fn backup_file_name(file_name: Option<&str>) -> (backup: String)
    ensures
        backup@ == name_or(file_name, "profiles.toml"@) + ".bak"@,
        file_name matches Some(name) ==> backup@ == name@ + ".bak"@,
{
    let name = match file_name {
        Some(name) => name,
        None => "profiles.toml",
    };
    name.to_string().concat(".bak")
}

/// What the temporary file for a file is called, beside the file, given what tells it from others.
pub open spec fn temp_name(file_name: Option<&str>, id: Seq<char>) -> Seq<char> {
    "."@ + name_or(file_name, "storify"@) + ".tmp-"@ + id
}

/// What the temporary file for a file is called, beside the file, given what tells it from others.
pub fn temp_file_name_with(file_name: Option<&str>, id: &str) -> (temp: String)
    ensures
        temp@ == temp_name(file_name, id@),
{
    let name = match file_name {
        Some(name) => name,
        None => "storify",
    };
    ".".to_string().concat(name).concat(".tmp-").concat(id)
}

/// What a new temporary file for a file is called, beside the file. The name ends in 32 random
/// hexadecimal digits.
pub fn temp_file_name(file_name: Option<&str>) -> (temp: String)
    ensures
        exists|id: Seq<char>|
            {
                &&& temp@ == #[trigger] temp_name(file_name, id)
                &&& id.len() == 32
                &&& forall|i: int|
                    0 <= i < id.len() ==> '0' <= #[trigger] id[i] <= '9' || 'a' <= id[i] <= 'f'
            },
{
    let id = crate::outside::random_id();
    let temp = temp_file_name_with(file_name, id.as_str());
    assert(temp@ == temp_name(file_name, id@));
    temp
}

/// A temporary file, which is to be removed unless it is kept.
#[derive(Debug)]
pub struct TempFile {
    path: String,
    should_cleanup: bool,
}

impl TempFile {
    /// The text of the file's path.
    pub closed spec fn path_view(self) -> Seq<char> {
        self.path@
    }

    /// The file is not kept.
    pub closed spec fn removable(self) -> bool {
        self.should_cleanup
    }

    /// A temporary file that is not kept.
    pub fn new(path: String) -> (file: Self)
        ensures
            file.path_view() == path@,
            file.removable(),
    {
        TempFile { path, should_cleanup: true }
    }

    /// The text of the file's path.
    pub fn path(&self) -> (path: &str)
        ensures
            path@ == self.path_view(),
    {
        self.path.as_str()
    }

    /// Keeps the file.
    pub fn keep(self) -> (file: Self)
        ensures
            file.path_view() == self.path_view(),
            !file.removable(),
    {
        TempFile { path: self.path, should_cleanup: false }
    }

    /// Whether the file is to be removed when it is done with, where `exists` says whether it is
    /// there.
    pub fn cleanup_due(&self, exists: bool) -> (due: bool)
        ensures
            due == (self.removable() && exists),
    {
        self.should_cleanup && exists
    }
}

// ---------------------------------------------------------------------------------------------
// Replacing a file
// ---------------------------------------------------------------------------------------------

/// A file that takes part in a replacement.
#[derive(Debug, Clone, Copy, PartialEq, Eq, Structural)]
pub enum WrittenFile {
    Temp,
    Backup,
    Target,
}

/// What is to be done next to replace a file: the data are written to a temporary file first, and a
/// file that is there is copied to a backup before the temporary file takes its place.
#[derive(Debug, Clone, Copy, PartialEq, Eq, Structural)]
pub enum WriteStep {
    OpenTemp,
    WriteTemp,
    SyncTemp,
    LookForTarget,
    CopyToBackup,
    RestrictBackup,
    RenameTemp,
    Done,
    /// A step failed on this file.
    Failed(WrittenFile),
}

/// How a step went. `Absent` is for a file that was looked for and is not there.
#[derive(Debug, Clone, Copy, PartialEq, Eq, Structural)]
pub enum StepOutcome {
    Succeeded,
    Absent,
    Failed,
}

/// The file that a step works on.
pub open spec fn step_file(step: WriteStep) -> WrittenFile {
    match step {
        WriteStep::OpenTemp => WrittenFile::Temp,
        WriteStep::WriteTemp => WrittenFile::Temp,
        WriteStep::SyncTemp => WrittenFile::Temp,
        WriteStep::CopyToBackup => WrittenFile::Backup,
        WriteStep::RestrictBackup => WrittenFile::Backup,
        WriteStep::LookForTarget => WrittenFile::Target,
        WriteStep::RenameTemp => WrittenFile::Target,
        WriteStep::Done => WrittenFile::Target,
        WriteStep::Failed(file) => file,
    }
}

/// The step after one that did not fail.
pub open spec fn step_after(step: WriteStep, outcome: StepOutcome) -> WriteStep {
    match step {
        WriteStep::OpenTemp => WriteStep::WriteTemp,
        WriteStep::WriteTemp => WriteStep::SyncTemp,
        WriteStep::SyncTemp => WriteStep::LookForTarget,
        WriteStep::LookForTarget => if outcome == StepOutcome::Absent {
            WriteStep::RenameTemp
        } else {
            WriteStep::CopyToBackup
        },
        WriteStep::CopyToBackup => WriteStep::RestrictBackup,
        WriteStep::RestrictBackup => WriteStep::RenameTemp,
        WriteStep::RenameTemp => WriteStep::Done,
        WriteStep::Done => WriteStep::Done,
        WriteStep::Failed(file) => WriteStep::Failed(file),
    }
}

/// There is nothing more to be done.
pub open spec fn finished(step: WriteStep) -> bool {
    step is Done || step is Failed
}

/// The step that follows on how one went: the first failure ends the replacement.
pub open spec fn next_step(step: WriteStep, outcome: StepOutcome) -> WriteStep {
    if outcome == StepOutcome::Failed && !finished(step) {
        WriteStep::Failed(step_file(step))
    } else {
        step_after(step, outcome)
    }
}

impl WriteStep {
    /// The first step of a replacement.
    pub fn first() -> (step: WriteStep)
        ensures
            step == WriteStep::OpenTemp,
    {
        WriteStep::OpenTemp
    }

    /// The file that the step works on: the one to name where it fails.
    pub fn file(self) -> (file: WrittenFile)
        ensures
            file == step_file(self),
    {
        match self {
            WriteStep::OpenTemp | WriteStep::WriteTemp | WriteStep::SyncTemp => WrittenFile::Temp,
            WriteStep::CopyToBackup | WriteStep::RestrictBackup => WrittenFile::Backup,
            WriteStep::LookForTarget | WriteStep::RenameTemp | WriteStep::Done => WrittenFile::Target,
            WriteStep::Failed(file) => file,
        }
    }

    /// The step that follows on how this one went.
    pub fn next(self, outcome: StepOutcome) -> (step: WriteStep)
        ensures
            step == next_step(self, outcome),
    {
        if outcome == StepOutcome::Failed {
            return match self {
                WriteStep::Done => WriteStep::Done,
                _ => WriteStep::Failed(self.file()),
            };
        }
        match self {
            WriteStep::OpenTemp => WriteStep::WriteTemp,
            WriteStep::WriteTemp => WriteStep::SyncTemp,
            WriteStep::SyncTemp => WriteStep::LookForTarget,
            WriteStep::LookForTarget => {
                if outcome == StepOutcome::Absent {
                    WriteStep::RenameTemp
                } else {
                    WriteStep::CopyToBackup
                }
            },
            WriteStep::CopyToBackup => WriteStep::RestrictBackup,
            WriteStep::RestrictBackup => WriteStep::RenameTemp,
            WriteStep::RenameTemp => WriteStep::Done,
            WriteStep::Done => WriteStep::Done,
            WriteStep::Failed(file) => WriteStep::Failed(file),
        }
    }
}

/// Where a replacement stands after the outcomes of its steps so far.
pub open spec fn step_reached(outcomes: Seq<StepOutcome>) -> WriteStep
    decreases outcomes.len(),
{
    if outcomes.len() == 0 {
        WriteStep::OpenTemp
    } else {
        next_step(step_reached(outcomes.drop_last()), outcomes.last())
    }
}

/// The data are in the temporary file, written and synced.
pub open spec fn temp_complete(outcomes: Seq<StepOutcome>) -> bool {
    &&& outcomes.len() >= 3
    &&& outcomes[0] != StepOutcome::Failed
    &&& outcomes[1] != StepOutcome::Failed
    &&& outcomes[2] != StepOutcome::Failed
}

/// The target was not there, or was copied to the backup, which was restricted.
pub open spec fn target_safe(outcomes: Seq<StepOutcome>) -> bool {
    &&& outcomes.len() >= 4
    &&& outcomes[3] == StepOutcome::Absent || (outcomes.len() >= 6 && outcomes[3]
        == StepOutcome::Succeeded && outcomes[4] != StepOutcome::Failed && outcomes[5]
        != StepOutcome::Failed)
}

/// The temporary file takes the target's place only when it is complete and the target was backed up
/// or not there; the replacement is done only after that went well.
pub proof fn law_target_replaced_last(outcomes: Seq<StepOutcome>)
    ensures
        step_reached(outcomes) is RenameTemp || step_reached(outcomes) is Done ==> temp_complete(
            outcomes,
        ) && target_safe(outcomes),
        step_reached(outcomes) is Done ==> exists|i: int|
            4 <= i < outcomes.len() && step_reached(#[trigger] outcomes.take(i)) is RenameTemp
                && outcomes[i] != StepOutcome::Failed,
    decreases outcomes.len(),
{
    lemma_path_to_rename(outcomes);
    if step_reached(outcomes) is Done {
        let before = outcomes.drop_last();
        law_target_replaced_last(before);
        lemma_path_to_rename(before);
        if step_reached(before) is Done {
            let i = choose|i: int|
                4 <= i < before.len() && step_reached(#[trigger] before.take(i)) is RenameTemp
                    && before[i] != StepOutcome::Failed;
            assert(outcomes.take(i) =~= before.take(i));
            assert(outcomes[i] == before[i]);
        } else {
            let i = outcomes.len() - 1;
            assert(outcomes.take(i) =~= before);
            assert(4 <= i < outcomes.len() && step_reached(outcomes.take(i)) is RenameTemp
                && outcomes[i] != StepOutcome::Failed);
        }
    }
}

/// The outcomes that lead to each step.
proof fn lemma_path_to_rename(outcomes: Seq<StepOutcome>)
    ensures
        step_reached(outcomes) is OpenTemp <==> outcomes.len() == 0,
        step_reached(outcomes) is WriteTemp ==> outcomes.len() == 1 && outcomes[0]
            != StepOutcome::Failed,
        step_reached(outcomes) is SyncTemp ==> outcomes.len() == 2 && outcomes[0]
            != StepOutcome::Failed && outcomes[1] != StepOutcome::Failed,
        step_reached(outcomes) is LookForTarget ==> outcomes.len() == 3 && temp_complete(outcomes),
        step_reached(outcomes) is CopyToBackup ==> outcomes.len() == 4 && temp_complete(outcomes)
            && outcomes[3] == StepOutcome::Succeeded,
        step_reached(outcomes) is RestrictBackup ==> outcomes.len() == 5 && temp_complete(outcomes)
            && outcomes[3] == StepOutcome::Succeeded && outcomes[4] != StepOutcome::Failed,
        step_reached(outcomes) is RenameTemp || step_reached(outcomes) is Done ==> temp_complete(
            outcomes,
        ) && target_safe(outcomes),
    decreases outcomes.len(),
{
    if outcomes.len() > 0 {
        let before = outcomes.drop_last();
        lemma_path_to_rename(before);
        assert forall|i: int| 0 <= i < before.len() implies before[i] == outcomes[i] by {}
    }
}

/// A replacement of which a step fails is never done: it ends with the file that the first failing
/// step worked on.
pub proof fn law_failure_is_final(outcomes: Seq<StepOutcome>, i: int)
    requires
        0 <= i < outcomes.len(),
        !finished(step_reached(outcomes.take(i))),
        outcomes[i] == StepOutcome::Failed,
    ensures
        step_reached(outcomes) == WriteStep::Failed(step_file(step_reached(outcomes.take(i)))),
    decreases outcomes.len(),
{
    let before = outcomes.drop_last();
    if i == outcomes.len() - 1 {
        assert(outcomes.take(i) =~= before);
    } else {
        assert(before.take(i) =~= outcomes.take(i));
        law_failure_is_final(before, i);
    }
}

/// A replacement has ended after seven steps; it is done where none of its steps failed.
pub proof fn law_replacement_ends(outcomes: Seq<StepOutcome>)
    requires
        outcomes.len() >= 7,
    ensures
        finished(step_reached(outcomes)),
        (forall|i: int| 0 <= i < outcomes.len() ==> outcomes[i] != StepOutcome::Failed)
            ==> step_reached(outcomes) is Done,
{
    if forall|i: int| 0 <= i < outcomes.len() ==> outcomes[i] != StepOutcome::Failed {
        lemma_no_failure(outcomes);
    }
    lemma_path_to_rename(outcomes);
    if step_reached(outcomes) is RenameTemp {
        lemma_rename_is_early(outcomes);
    }
}

/// Where no step failed, the replacement has not.
proof fn lemma_no_failure(outcomes: Seq<StepOutcome>)
    requires
        forall|i: int| 0 <= i < outcomes.len() ==> outcomes[i] != StepOutcome::Failed,
    ensures
        !(step_reached(outcomes) is Failed),
    decreases outcomes.len(),
{
    if outcomes.len() > 0 {
        assert forall|i: int| 0 <= i < outcomes.drop_last().len() implies outcomes.drop_last()[i]
            != StepOutcome::Failed by {
            assert(outcomes.drop_last()[i] == outcomes[i]);
        }
        lemma_no_failure(outcomes.drop_last());
    }
}

/// The temporary file takes the target's place in the seventh step at the latest.
proof fn lemma_rename_is_early(outcomes: Seq<StepOutcome>)
    requires
        step_reached(outcomes) is RenameTemp,
    ensures
        outcomes.len() <= 6,
{
    lemma_path_to_rename(outcomes);
    lemma_path_to_rename(outcomes.drop_last());
}

impl ProfileStore {
    /// Where a store stands by default.
    pub fn default_path(
        profile_path: Option<String>,
        config: Option<String>,
        has_home_dir: bool,
    ) -> (location: StoreLocation)
        ensures
            stands_by_default(location, profile_path, config, has_home_dir),
            profile_path matches Some(path) ==> (location matches StoreLocation::Given(given) && given@
                == path@),
            profile_path is None ==> (config matches Some(path) ==> (
            location matches StoreLocation::Given(given) && given@ == path@)),
            location is Given <==> profile_path is Some || config is Some,
            location is UnderHome <==> profile_path is None && config is None && has_home_dir,
    {
        default_store_path(profile_path, config, has_home_dir)
    }
}

} // verus!
