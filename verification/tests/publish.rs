use rustshot::encode::EncodeError;
use rustshot::publish::{
    configuration_error, screenshot_error, temporary_file_name, AtomicWrite, CreationOutcome,
    WriteAction, WriteEvent, WriteFailure, WriteOperation, WriteTarget, TEMPORARY_FILE_ATTEMPTS,
};

fn screenshot(replace_existing: bool) -> AtomicWrite {
    AtomicWrite::new(
        WriteTarget::Screenshot { replace_existing },
        r"C:\shots\a.png".to_owned(),
        r"C:\shots".to_owned(),
        Some("a.png".to_owned()),
        7,
    )
}

#[test]
fn a_fresh_screenshot_is_checked_written_synchronized_rechecked_and_published() {
    let mut write = screenshot(false);
    assert!(matches!(write.advance(WriteEvent::Completed(Ok(())), 0), WriteAction::CheckDestination));
    assert!(matches!(
        write.advance(WriteEvent::Exists(false), 0),
        WriteAction::CreateDirectory(path) if path == r"C:\shots"
    ));
    let WriteAction::CreateTemporary(temporary) = write.advance(WriteEvent::Completed(Ok(())), 3)
    else {
        panic!("a temporary file is created next");
    };
    assert!(temporary.ends_with(".a.png.rustshot-7-3.tmp"));
    assert!(matches!(
        write.advance(WriteEvent::Creation(CreationOutcome::Created), 4),
        WriteAction::WriteTemporary
    ));
    assert!(matches!(
        write.advance(WriteEvent::Completed(Ok(())), 5),
        WriteAction::SynchronizeTemporary
    ));
    assert!(matches!(write.advance(WriteEvent::Completed(Ok(())), 6), WriteAction::CheckDestination));
    assert!(matches!(
        write.advance(WriteEvent::Exists(false), 7),
        WriteAction::Publish { replace_existing: false }
    ));
    assert!(matches!(write.advance(WriteEvent::Completed(Ok(())), 8), WriteAction::Finish(Ok(()))));
}

#[test]
fn an_existing_screenshot_is_never_overwritten_without_confirmation() {
    let mut write = screenshot(false);
    write.advance(WriteEvent::Completed(Ok(())), 0);
    match write.advance(WriteEvent::Exists(true), 0) {
        WriteAction::Finish(Err(WriteFailure::DestinationExists(path))) => {
            assert_eq!(path, r"C:\shots\a.png")
        }
        other => panic!("unexpected {other:?}"),
    }
}

#[test]
fn a_file_that_appears_meanwhile_is_kept_and_the_temporary_removed() {
    let mut write = screenshot(false);
    write.advance(WriteEvent::Completed(Ok(())), 0);
    write.advance(WriteEvent::Exists(false), 0);
    write.advance(WriteEvent::Completed(Ok(())), 1);
    write.advance(WriteEvent::Creation(CreationOutcome::Created), 2);
    write.advance(WriteEvent::Completed(Ok(())), 3);
    write.advance(WriteEvent::Completed(Ok(())), 4);
    assert!(matches!(
        write.advance(WriteEvent::Exists(true), 5),
        WriteAction::RemoveTemporary(path) if path.ends_with(".a.png.rustshot-7-1.tmp")
    ));
    assert!(matches!(
        write.advance(WriteEvent::Completed(Ok(())), 6),
        WriteAction::Finish(Err(WriteFailure::DestinationExists(_)))
    ));
}

#[test]
fn confirmed_replacement_skips_the_existence_checks() {
    let mut write = screenshot(true);
    assert!(matches!(write.advance(WriteEvent::Completed(Ok(())), 0), WriteAction::CreateDirectory(_)));
    write.advance(WriteEvent::Completed(Ok(())), 0);
    write.advance(WriteEvent::Creation(CreationOutcome::Created), 0);
    write.advance(WriteEvent::Completed(Ok(())), 0);
    assert!(matches!(
        write.advance(WriteEvent::Completed(Ok(())), 0),
        WriteAction::Publish { replace_existing: true }
    ));
}

#[test]
fn a_destination_without_file_name_is_refused() {
    let mut write = AtomicWrite::new(
        WriteTarget::Screenshot { replace_existing: false },
        r"C:\".to_owned(),
        r"C:\".to_owned(),
        None,
        1,
    );
    assert!(matches!(
        write.advance(WriteEvent::Completed(Ok(())), 0),
        WriteAction::Finish(Err(WriteFailure::MissingFileName(_)))
    ));
}

#[test]
fn temporary_names_are_retried_a_bounded_number_of_times() {
    let mut write = screenshot(true);
    write.advance(WriteEvent::Completed(Ok(())), 0);
    write.advance(WriteEvent::Completed(Ok(())), 0);
    for attempt in 1..TEMPORARY_FILE_ATTEMPTS {
        assert!(matches!(
            write.advance(WriteEvent::Creation(CreationOutcome::AlreadyExists), u64::from(attempt)),
            WriteAction::CreateTemporary(_)
        ));
    }
    let WriteAction::Finish(Err(failure)) =
        write.advance(WriteEvent::Creation(CreationOutcome::AlreadyExists), 99)
    else {
        panic!("the attempts are exhausted");
    };
    match screenshot_error(failure) {
        EncodeError::Io { operation, path, .. } => {
            assert_eq!(operation, "create a unique temporary screenshot");
            assert_eq!(path, r"C:\shots");
        }
        other => panic!("unexpected {other:?}"),
    }
}

#[test]
fn a_failed_write_removes_the_temporary_and_reports_the_write() {
    let mut write = AtomicWrite::new(
        WriteTarget::Configuration,
        "settings/config.toml".to_owned(),
        "settings".to_owned(),
        Some("config.toml".to_owned()),
        12,
    );
    write.advance(WriteEvent::Completed(Ok(())), 0);
    let WriteAction::CreateTemporary(temporary) = write.advance(WriteEvent::Completed(Ok(())), 5)
    else {
        panic!("a temporary file is created next");
    };
    assert!(temporary.ends_with(".config.toml.12.5.tmp"));
    write.advance(WriteEvent::Creation(CreationOutcome::Created), 6);
    assert!(matches!(
        write.advance(WriteEvent::Completed(Err("disk full".to_owned())), 7),
        WriteAction::RemoveTemporary(path) if path == temporary
    ));
    let WriteAction::Finish(Err(failure)) = write.advance(WriteEvent::Completed(Ok(())), 8) else {
        panic!("the write is over");
    };
    let error = configuration_error(failure);
    assert_eq!(
        error.message(),
        format!("failed to write temporary configuration at `{temporary}`: disk full")
    );
}

#[test]
fn temporary_names_carry_the_process_and_the_attempt() {
    assert_eq!(
        temporary_file_name(WriteTarget::Screenshot { replace_existing: false }, &Some("x.jpg".to_owned()), 42, 9),
        ".x.jpg.rustshot-42-9.tmp"
    );
    assert_eq!(temporary_file_name(WriteTarget::Configuration, &None, 3, 0), ".config.toml.3.0.tmp");
    assert!(matches!(
        screenshot_error(WriteFailure::Io {
            operation: WriteOperation::Publish,
            path: "p".to_owned(),
            message: "m".to_owned()
        }),
        EncodeError::Io { operation, .. } if operation == "publish screenshot"
    ));
}
