use artifact_fetch::error::ExtractError;
use artifact_fetch::extract::{
    extract, extract_zip, ArchiveKind, ExtractAction, ExtractInput, ExtractPhase, ExtractStep, Extraction,
};
use artifact_fetch::progress::Ratio;

fn events(step: &ExtractStep) -> Vec<(f32, String)> {
    step.items
        .iter()
        .map(|item| match item {
            Ok(event) => (event.ratio.num as f32 / event.ratio.den as f32, event.message.clone()),
            Err(e) => panic!("unexpected error {:?}", e),
        })
        .collect()
}

fn read(name: &str, is_dir: bool) -> ExtractInput {
    ExtractInput::EntryRead { name: Some(name.to_string()), is_dir }
}

fn opened(e: &mut Extraction, entries: u64) {
    let s = e.step(ExtractInput::Begin);
    assert!(matches!(s.action, ExtractAction::OpenArchive));
    let s = e.step(ExtractInput::Opened { entries });
    assert!(s.items.is_empty());
    assert!(matches!(s.action, ExtractAction::PrepareDestination));
}

#[test]
fn zip_of_three_entries_reports_thirds() {
    let mut e = extract_zip("/tmp/a.zip", "/tmp/out");
    assert_eq!(e.kind(), ArchiveKind::Zip);
    assert_eq!(e.archive(), "/tmp/a.zip");
    assert_eq!(e.destination(), "/tmp/out");
    assert_eq!(e.phase(), ExtractPhase::Idle);
    let s = e.step(ExtractInput::Begin);
    assert_eq!(events(&s), vec![(0.0, "Reading file...".to_string())]);
    assert!(matches!(s.action, ExtractAction::OpenArchive));
    let s = e.step(ExtractInput::Opened { entries: 3 });
    assert!(s.items.is_empty());
    let s = e.step(ExtractInput::DestinationReady);
    assert!(s.items.is_empty());
    assert!(matches!(s.action, ExtractAction::ReadEntry(0)));

    let s = e.step(read("docs/", true));
    assert!(s.items.is_empty());
    match s.action {
        ExtractAction::CreateDirectory(path) => assert_eq!(path, vec!["docs".to_string()]),
        other => panic!("unexpected {:?}", other),
    }
    let s = e.step(ExtractInput::EntryWritten);
    assert_eq!(s.items.len(), 1);
    match &s.items[0] {
        Ok(event) => {
            assert_eq!(event.ratio, Ratio { num: 1, den: 3 });
            assert_eq!(event.message, "Extracting docs/");
        }
        Err(e) => panic!("unexpected {:?}", e),
    }
    assert!(matches!(s.action, ExtractAction::ReadEntry(1)));

    let s = e.step(read("docs/readme.txt", false));
    match s.action {
        ExtractAction::WriteFile(path) => assert_eq!(path, vec!["docs".to_string(), "readme.txt".to_string()]),
        other => panic!("unexpected {:?}", other),
    }
    let s = e.step(ExtractInput::EntryWritten);
    match &s.items[0] {
        Ok(event) => assert_eq!(event.ratio, Ratio { num: 2, den: 3 }),
        Err(e) => panic!("unexpected {:?}", e),
    }
    assert!(matches!(s.action, ExtractAction::ReadEntry(2)));

    e.step(read("tool.bin", false));
    let s = e.step(ExtractInput::EntryWritten);
    assert_eq!(
        events(&s),
        vec![
            (1.0, "Extracting tool.bin".to_string()),
            (1.0, "Extraction done".to_string()),
            (1.0, "Extraction complete".to_string()),
        ]
    );
    assert!(matches!(s.action, ExtractAction::Stop));
    assert_eq!(e.phase(), ExtractPhase::Succeeded);
    let s = e.step(ExtractInput::EntryWritten);
    assert!(s.items.is_empty());
    assert!(matches!(s.action, ExtractAction::Stop));
}

#[test]
fn seven_z_says_done_twice() {
    let mut e = extract("/tmp/a.7z", "/tmp/out");
    assert_eq!(e.kind(), ArchiveKind::SevenZ);
    let s = e.step(ExtractInput::Begin);
    assert_eq!(events(&s), vec![(0.0, "Reading file...".to_string())]);
    e.step(ExtractInput::Opened { entries: 1 });
    e.step(ExtractInput::DestinationReady);
    e.step(read("a", false));
    let s = e.step(ExtractInput::EntryWritten);
    assert_eq!(
        events(&s),
        vec![
            (1.0, "Extracting a".to_string()),
            (1.0, "Extraction done".to_string()),
            (1.0, "Extraction done".to_string()),
        ]
    );
}

#[test]
fn entry_outside_the_destination_is_skipped() {
    let mut e = extract_zip("/tmp/a.zip", "/tmp/out");
    opened(&mut e, 3);
    e.step(ExtractInput::DestinationReady);
    let s = e.step(read("../../etc/passwd", false));
    assert!(s.items.is_empty());
    assert!(matches!(s.action, ExtractAction::ReadEntry(1)));
    assert_eq!(e.phase(), ExtractPhase::Reading);
    let s = e.step(ExtractInput::EntryRead { name: None, is_dir: false });
    assert!(s.items.is_empty());
    assert!(matches!(s.action, ExtractAction::ReadEntry(2)));
    e.step(read("ok.txt", false));
    let s = e.step(ExtractInput::EntryWritten);
    assert_eq!(
        events(&s),
        vec![
            (1.0, "Extracting ok.txt".to_string()),
            (1.0, "Extraction done".to_string()),
            (1.0, "Extraction complete".to_string()),
        ]
    );
}

#[test]
fn skipped_last_entry_ends_the_extraction() {
    let mut e = extract_zip("/tmp/a.zip", "/tmp/out");
    opened(&mut e, 1);
    e.step(ExtractInput::DestinationReady);
    let s = e.step(read("/etc/passwd", false));
    assert_eq!(
        events(&s),
        vec![(1.0, "Extraction done".to_string()), (1.0, "Extraction complete".to_string())]
    );
    assert!(matches!(s.action, ExtractAction::Stop));
    assert_eq!(e.phase(), ExtractPhase::Succeeded);
}

#[test]
fn empty_archive_ends_at_once() {
    let mut e = extract_zip("/tmp/a.zip", "/tmp/out");
    opened(&mut e, 0);
    let s = e.step(ExtractInput::DestinationReady);
    assert_eq!(
        events(&s),
        vec![(1.0, "Extraction done".to_string()), (1.0, "Extraction complete".to_string())]
    );
    assert!(matches!(s.action, ExtractAction::Stop));
}

#[test]
fn archive_may_end_before_its_count() {
    let mut e = extract("/tmp/a.7z", "/tmp/out");
    opened(&mut e, 5);
    e.step(ExtractInput::DestinationReady);
    e.step(read("a", false));
    e.step(ExtractInput::EntryWritten);
    let s = e.step(ExtractInput::ArchiveEnded);
    assert_eq!(
        events(&s),
        vec![(1.0, "Extraction done".to_string()), (1.0, "Extraction done".to_string())]
    );
    assert_eq!(e.phase(), ExtractPhase::Succeeded);
}

#[test]
fn corrupt_archive_fails_at_once() {
    let mut e = extract_zip("/tmp/a.zip", "/tmp/out");
    e.step(ExtractInput::Begin);
    let s = e.step(ExtractInput::ArchiveFailed("invalid Zip archive".to_string()));
    assert_eq!(s.items.len(), 1);
    match &s.items[0] {
        Err(err @ ExtractError::ArchiveError(_)) => assert_eq!(err.message(), "invalid Zip archive"),
        other => panic!("unexpected {:?}", other),
    }
    assert!(matches!(s.action, ExtractAction::Stop));
    assert_eq!(e.phase(), ExtractPhase::Failed);
    let s = e.step(ExtractInput::DestinationReady);
    assert!(s.items.is_empty());
    assert!(matches!(s.action, ExtractAction::Stop));
}

#[test]
fn unreadable_archive_file_is_an_io_error() {
    let mut e = extract_zip("/tmp/missing.zip", "/tmp/out");
    e.step(ExtractInput::Begin);
    let s = e.step(ExtractInput::IoFailed("No such file or directory".to_string()));
    match &s.items[0] {
        Err(err @ ExtractError::IoError(_)) => assert_eq!(err.message(), "No such file or directory"),
        other => panic!("unexpected {:?}", other),
    }
}

#[test]
fn failures_are_terminal_in_every_phase() {
    let mut e = extract_zip("/tmp/a.zip", "/tmp/out");
    opened(&mut e, 2);
    let s = e.step(ExtractInput::IoFailed("read-only".to_string()));
    assert!(matches!(s.items[0], Err(ExtractError::IoError(_))));
    assert!(matches!(s.action, ExtractAction::Stop));

    let mut e = extract_zip("/tmp/a.zip", "/tmp/out");
    opened(&mut e, 2);
    e.step(ExtractInput::DestinationReady);
    let s = e.step(ExtractInput::ArchiveFailed("bad entry".to_string()));
    assert!(matches!(s.items[0], Err(ExtractError::ArchiveError(_))));

    let mut e = extract_zip("/tmp/a.zip", "/tmp/out");
    opened(&mut e, 2);
    e.step(ExtractInput::DestinationReady);
    e.step(read("a", false));
    let s = e.step(ExtractInput::IoFailed("disk full".to_string()));
    assert_eq!(s.items.len(), 1);
    assert!(matches!(s.items[0], Err(ExtractError::IoError(_))));
    assert_eq!(e.phase(), ExtractPhase::Failed);

    let mut e = extract("/tmp/a.7z", "/tmp/out");
    opened(&mut e, 2);
    e.step(ExtractInput::DestinationReady);
    e.step(read("a", false));
    let s = e.step(ExtractInput::ArchiveFailed("checksum".to_string()));
    assert!(matches!(s.items[0], Err(ExtractError::ArchiveError(_))));
}

#[test]
fn entry_report_out_of_turn_changes_nothing() {
    let mut e = extract_zip("/tmp/a.zip", "/tmp/out");
    let s = e.step(ExtractInput::EntryWritten);
    assert!(s.items.is_empty());
    assert!(matches!(s.action, ExtractAction::KeepWaiting));
    assert_eq!(e.phase(), ExtractPhase::Idle);
    opened(&mut e, 2);
    e.step(ExtractInput::DestinationReady);
    let s = e.step(ExtractInput::EntryWritten);
    assert!(s.items.is_empty());
    assert!(matches!(s.action, ExtractAction::KeepWaiting));
    assert_eq!(e.phase(), ExtractPhase::Reading);
}

#[test]
fn opening_event_is_the_same_for_both_formats_and_comes_before_the_archive_is_opened() {
    let mut zip = extract_zip("/tmp/missing.zip", "/tmp/out");
    let first = zip.step(ExtractInput::Begin);
    assert_eq!(events(&first), vec![(0.0, "Reading file...".to_string())]);
    assert!(matches!(first.action, ExtractAction::OpenArchive));
    let mut seven = extract("/tmp/missing.7z", "/tmp/out");
    let first = seven.step(ExtractInput::Begin);
    assert_eq!(events(&first), vec![(0.0, "Reading file...".to_string())]);
    assert!(matches!(first.action, ExtractAction::OpenArchive));
}
