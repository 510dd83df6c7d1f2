use storify_profiles::files::{
    backup_file_name, default_store_path, temp_file_name, temp_file_name_with, StepOutcome,
    StoreLocation, TempFile, WriteStep, WrittenFile,
};
use storify_profiles::ProfileStore;

fn text(s: &str) -> Option<String> {
    Some(s.to_string())
}

#[test]
fn default_paths() {
    assert_eq!(
        default_store_path(text("/a"), text("/b"), true),
        StoreLocation::Given("/a".to_string())
    );
    assert_eq!(
        default_store_path(None, text("/b"), true),
        StoreLocation::Given("/b".to_string())
    );
    assert_eq!(
        default_store_path(None, None, true),
        StoreLocation::UnderHome(vec![
            ".config".to_string(),
            "storify".to_string(),
            "profiles.toml".to_string()
        ])
    );
    assert_eq!(
        ProfileStore::default_path(None, None, false),
        StoreLocation::UnderCurrentDir(vec!["storify-profiles.toml".to_string()])
    );
}

#[test]
fn backup_names() {
    assert_eq!(backup_file_name(Some("my.toml")), "my.toml.bak");
    assert_eq!(backup_file_name(None), "profiles.toml.bak");
}

#[test]
fn temp_names() {
    assert_eq!(temp_file_name_with(Some("my.toml"), "0f"), ".my.toml.tmp-0f");
    assert_eq!(temp_file_name_with(None, "0f"), ".storify.tmp-0f");
    let one = temp_file_name(Some("my.toml"));
    let two = temp_file_name(Some("my.toml"));
    assert_ne!(one, two);
    let id = one.strip_prefix(".my.toml.tmp-").unwrap();
    assert_eq!(id.len(), 32);
    assert!(id.chars().all(|c| c.is_ascii_digit() || ('a'..='f').contains(&c)));
}

#[test]
fn temp_files_are_removed_unless_kept() {
    let file = TempFile::new("/tmp/x".to_string());
    assert_eq!(file.path(), "/tmp/x");
    assert!(file.cleanup_due(true));
    assert!(!file.cleanup_due(false));
    let kept = file.keep();
    assert_eq!(kept.path(), "/tmp/x");
    assert!(!kept.cleanup_due(true));
}

fn run(outcomes: &[StepOutcome]) -> WriteStep {
    let mut step = WriteStep::first();
    for outcome in outcomes {
        step = step.next(*outcome);
    }
    step
}

#[test]
fn replacing_a_file_that_is_there() {
    let ok = StepOutcome::Succeeded;
    let steps = [
        WriteStep::OpenTemp,
        WriteStep::WriteTemp,
        WriteStep::SyncTemp,
        WriteStep::LookForTarget,
        WriteStep::CopyToBackup,
        WriteStep::RestrictBackup,
        WriteStep::RenameTemp,
        WriteStep::Done,
        WriteStep::Done,
    ];
    let outcomes = [ok; 8];
    for i in 0..steps.len() {
        assert_eq!(run(&outcomes[..i]), steps[i]);
    }
}

#[test]
fn replacing_a_file_that_is_not_there() {
    let ok = StepOutcome::Succeeded;
    assert_eq!(run(&[ok, ok, ok, StepOutcome::Absent]), WriteStep::RenameTemp);
    assert_eq!(run(&[ok, ok, ok, StepOutcome::Absent, ok]), WriteStep::Done);
}

#[test]
fn failures_name_the_file() {
    let ok = StepOutcome::Succeeded;
    let failed = StepOutcome::Failed;
    let files = [
        WrittenFile::Temp,
        WrittenFile::Temp,
        WrittenFile::Temp,
        WrittenFile::Target,
        WrittenFile::Backup,
        WrittenFile::Backup,
        WrittenFile::Target,
    ];
    for i in 0..files.len() {
        let mut outcomes = vec![ok; i];
        outcomes.push(failed);
        assert_eq!(run(&outcomes), WriteStep::Failed(files[i]));
        outcomes.push(ok);
        assert_eq!(run(&outcomes), WriteStep::Failed(files[i]));
        outcomes.push(failed);
        assert_eq!(run(&outcomes), WriteStep::Failed(files[i]));
    }
    assert_eq!(run(&[ok, ok, ok, ok, ok, ok, ok, failed]), WriteStep::Done);
    assert_eq!(WriteStep::CopyToBackup.file(), WrittenFile::Backup);
}
