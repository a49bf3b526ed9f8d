use saya::tempfile::{
    first_tempfile_step, import_tempfile_name, manifest_tempfile_name, next_tempfile_step,
    CreateOutcome, TempfileStep, TEMPFILE_ATTEMPTS,
};

#[test]
fn tempfile_attempts_start_at_zero_and_advance_on_existing_file() {
    assert_eq!(first_tempfile_step(), TempfileStep::Try(0));
    assert_eq!(
        next_tempfile_step(0, CreateOutcome::AlreadyExists),
        TempfileStep::Try(1)
    );
    assert_eq!(
        next_tempfile_step(98, CreateOutcome::AlreadyExists),
        TempfileStep::Try(99)
    );
}

#[test]
fn tempfile_attempts_stop_after_the_last_number() {
    assert_eq!(TEMPFILE_ATTEMPTS, 100);
    assert_eq!(
        next_tempfile_step(99, CreateOutcome::AlreadyExists),
        TempfileStep::Exhausted
    );
}

#[test]
fn tempfile_created_is_used_and_other_failures_are_reported() {
    assert_eq!(next_tempfile_step(0, CreateOutcome::Created), TempfileStep::Use);
    assert_eq!(next_tempfile_step(99, CreateOutcome::Created), TempfileStep::Use);
    assert_eq!(next_tempfile_step(5, CreateOutcome::Failed), TempfileStep::Fail);
}

#[test]
fn tempfile_names() {
    assert_eq!(import_tempfile_name(4321, 0), "saya-import-4321-0.txt");
    assert_eq!(import_tempfile_name(7, 42), "saya-import-7-42.txt");
    assert_eq!(
        manifest_tempfile_name("packages.toml", 4321, 99),
        ".packages.toml.4321.99.tmp"
    );
}
