use artifact_fetch::download::{
    check_digest, download, same_bytes, DownloadAction, DownloadInput, DownloadStep, Phase,
};
use artifact_fetch::error::DownloadError;
use artifact_fetch::hex_text::HexError;
use artifact_fetch::progress::Ratio;

const ZEROS_1000: &str = "541b3e9daa09b20bf85fa273e5cbd3e80185aa4ec298e765db87742b70138a53";
const ABC: &str = "ba7816bf8f01cfea414140de5dae2223b00361a396177a9cb410ff61f20015ad";
const EMPTY: &str = "e3b0c44298fc1c149afbf4c8996fb92427ae41e4649b934ca495991b7852b855";

fn ratio_of(step: &DownloadStep) -> f32 {
    match &step.item {
        Some(Ok(event)) => event.ratio.num as f32 / event.ratio.den as f32,
        other => panic!("no progress event: {:?}", other),
    }
}

fn message_of(step: &DownloadStep) -> String {
    match &step.item {
        Some(Ok(event)) => event.message.clone(),
        other => panic!("no progress event: {:?}", other),
    }
}

#[test]
fn four_chunks_of_250_bytes_report_quarters() {
    let mut d = download("tool", "https://example.org/tool.bin", "/tmp/tool.bin", Some(ZEROS_1000.to_string()));
    assert_eq!(d.phase(), Phase::Idle);
    let first = d.step(DownloadInput::Begin);
    assert_eq!(ratio_of(&first), 0.0);
    assert_eq!(message_of(&first), "Downloading tool");
    assert!(matches!(first.action, DownloadAction::SendRequest));
    let s = d.step(DownloadInput::ResponseReceived { content_length: Some(1000) });
    assert!(s.item.is_none());
    assert!(matches!(s.action, DownloadAction::CreateFile));
    let s = d.step(DownloadInput::FileCreated);
    assert!(s.item.is_none());
    assert!(matches!(s.action, DownloadAction::ReadChunk));
    let mut file: Vec<u8> = Vec::new();
    let mut ratios: Vec<f32> = vec![0.0];
    for _ in 0..4 {
        let s = d.step(DownloadInput::ChunkReceived(vec![0u8; 250]));
        assert!(s.item.is_none());
        match s.action {
            DownloadAction::WriteChunk(bytes) => file.extend_from_slice(&bytes),
            other => panic!("expected a write, got {:?}", other),
        }
        let s = d.step(DownloadInput::ChunkWritten);
        assert_eq!(message_of(&s), "Downloading tool");
        assert!(matches!(s.action, DownloadAction::ReadChunk));
        ratios.push(ratio_of(&s));
    }
    assert_eq!(ratios, vec![0.0, 0.25, 0.5, 0.75, 1.0]);
    let last = d.step(DownloadInput::BodyEnded);
    assert!(last.item.is_none());
    assert!(matches!(last.action, DownloadAction::Stop));
    assert_eq!(d.phase(), Phase::Succeeded);
    assert_eq!(file.len(), 1000);
}

#[test]
fn digest_is_that_of_all_chunks_in_order() {
    let mut d = download("abc", "u", "p", Some(ABC.to_string()));
    d.step(DownloadInput::Begin);
    d.step(DownloadInput::ResponseReceived { content_length: Some(3) });
    d.step(DownloadInput::FileCreated);
    d.step(DownloadInput::ChunkReceived(b"a".to_vec()));
    d.step(DownloadInput::ChunkWritten);
    d.step(DownloadInput::ChunkReceived(b"bc".to_vec()));
    d.step(DownloadInput::ChunkWritten);
    let last = d.step(DownloadInput::BodyEnded);
    assert!(last.item.is_none());
    assert_eq!(d.phase(), Phase::Succeeded);
}

#[test]
fn chunks_in_another_order_give_another_digest() {
    let mut d = download("abc", "u", "p", Some(ABC.to_string()));
    d.step(DownloadInput::Begin);
    d.step(DownloadInput::ResponseReceived { content_length: Some(3) });
    d.step(DownloadInput::FileCreated);
    d.step(DownloadInput::ChunkReceived(b"bc".to_vec()));
    d.step(DownloadInput::ChunkWritten);
    d.step(DownloadInput::ChunkReceived(b"a".to_vec()));
    d.step(DownloadInput::ChunkWritten);
    let last = d.step(DownloadInput::BodyEnded);
    match last.item {
        Some(Err(DownloadError::HashMismatch(expected, actual))) => {
            assert_eq!(expected, ABC);
            assert_eq!(actual.len(), 64);
            assert_ne!(actual, ABC);
        }
        other => panic!("expected a mismatch, got {:?}", other),
    }
    assert_eq!(d.phase(), Phase::Failed);
}

#[test]
fn empty_body_has_the_digest_of_nothing() {
    let mut d = download("none", "u", "p", Some(EMPTY.to_string()));
    d.step(DownloadInput::Begin);
    d.step(DownloadInput::ResponseReceived { content_length: None });
    d.step(DownloadInput::FileCreated);
    let last = d.step(DownloadInput::BodyEnded);
    assert!(last.item.is_none());
    assert_eq!(d.phase(), Phase::Succeeded);
}

#[test]
fn altered_hash_is_a_mismatch_with_two_hex_texts() {
    let altered = ZEROS_1000.replacen('5', "6", 1);
    let mut d = download("tool", "u", "p", Some(altered.clone()));
    d.step(DownloadInput::Begin);
    d.step(DownloadInput::ResponseReceived { content_length: Some(1000) });
    d.step(DownloadInput::FileCreated);
    d.step(DownloadInput::ChunkReceived(vec![0u8; 1000]));
    let s = d.step(DownloadInput::ChunkWritten);
    assert_eq!(ratio_of(&s), 1.0);
    let last = d.step(DownloadInput::BodyEnded);
    assert!(matches!(last.action, DownloadAction::Stop));
    match last.item {
        Some(Err(DownloadError::HashMismatch(expected, actual))) => {
            assert_eq!(expected, altered);
            assert_eq!(actual, ZEROS_1000);
            assert_eq!(expected.len(), actual.len());
            assert!(expected.chars().all(|c| c.is_ascii_hexdigit()));
            assert!(actual.chars().all(|c| c.is_ascii_hexdigit()));
        }
        other => panic!("expected a mismatch, got {:?}", other),
    }
    assert_eq!(d.phase(), Phase::Failed);
    let after = d.step(DownloadInput::ChunkWritten);
    assert!(after.item.is_none());
    assert!(matches!(after.action, DownloadAction::Stop));
}

#[test]
fn upper_case_hash_is_accepted() {
    let digest = hex::decode(ABC).unwrap();
    assert!(check_digest(&ABC.to_uppercase(), &digest).is_ok());
    assert!(check_digest(ABC, &digest).is_ok());
}

#[test]
fn malformed_hash_is_invalid() {
    let digest = hex::decode(ABC).unwrap();
    match check_digest("abc", &digest) {
        Err(DownloadError::InvalidHash(HexError::OddLength)) => {}
        other => panic!("unexpected {:?}", other),
    }
    match check_digest("ab0g", &digest) {
        Err(DownloadError::InvalidHash(HexError::InvalidHexCharacter { c, index })) => {
            assert_eq!(c, 'g');
            assert_eq!(index, 3);
        }
        other => panic!("unexpected {:?}", other),
    }
    match check_digest("zz0g", &digest) {
        Err(DownloadError::InvalidHash(HexError::InvalidHexCharacter { c, index })) => {
            assert_eq!(c, 'z');
            assert_eq!(index, 0);
        }
        other => panic!("unexpected {:?}", other),
    }
}

#[test]
fn shorter_hash_is_a_mismatch() {
    let digest = hex::decode(ABC).unwrap();
    match check_digest("BA78", &digest) {
        Err(DownloadError::HashMismatch(expected, actual)) => {
            assert_eq!(expected, "ba78");
            assert_eq!(actual, ABC);
        }
        other => panic!("unexpected {:?}", other),
    }
}

#[test]
fn same_bytes_compares_contents() {
    assert!(same_bytes(&[], &[]));
    assert!(same_bytes(&[1, 2, 3], &[1, 2, 3]));
    assert!(!same_bytes(&[1, 2, 3], &[1, 2, 4]));
    assert!(!same_bytes(&[1, 2, 3], &[1, 2]));
}

#[test]
fn request_failure_ends_the_sequence() {
    let mut d = download("tool", "u", "p", None);
    d.step(DownloadInput::Begin);
    let s = d.step(DownloadInput::RequestFailed("connection refused".to_string()));
    assert!(matches!(s.action, DownloadAction::Stop));
    match s.item {
        Some(Err(DownloadError::RequestError(text))) => assert_eq!(text, "connection refused"),
        other => panic!("unexpected {:?}", other),
    }
    assert_eq!(d.phase(), Phase::Failed);
}

#[test]
fn existing_file_fails_with_io_error_and_nothing_is_written() {
    let mut d = download("tool", "u", "/tmp/exists", None);
    d.step(DownloadInput::Begin);
    let s = d.step(DownloadInput::ResponseReceived { content_length: Some(10) });
    assert!(matches!(s.action, DownloadAction::CreateFile));
    let s = d.step(DownloadInput::IoFailed("File exists (os error 17)".to_string()));
    assert!(matches!(s.action, DownloadAction::Stop));
    match s.item {
        Some(Err(e @ DownloadError::IoError(_))) => {
            assert_eq!(e.message(), "IO error: File exists (os error 17)")
        }
        other => panic!("unexpected {:?}", other),
    }
    let s = d.step(DownloadInput::ChunkReceived(vec![1, 2, 3]));
    assert!(s.item.is_none());
    assert!(matches!(s.action, DownloadAction::Stop));
}

#[test]
fn failures_during_the_body_are_terminal() {
    let mut d = download("tool", "u", "p", None);
    d.step(DownloadInput::Begin);
    d.step(DownloadInput::ResponseReceived { content_length: Some(10) });
    d.step(DownloadInput::FileCreated);
    d.step(DownloadInput::ChunkReceived(vec![1, 2, 3]));
    let s = d.step(DownloadInput::IoFailed("disk full".to_string()));
    assert!(matches!(s.item, Some(Err(DownloadError::IoError(_)))));
    assert!(matches!(s.action, DownloadAction::Stop));

    let mut d = download("tool", "u", "p", None);
    d.step(DownloadInput::Begin);
    d.step(DownloadInput::ResponseReceived { content_length: Some(10) });
    d.step(DownloadInput::FileCreated);
    let s = d.step(DownloadInput::RequestFailed("reset".to_string()));
    assert!(matches!(s.item, Some(Err(DownloadError::RequestError(_)))));
    assert!(matches!(s.action, DownloadAction::Stop));
}

#[test]
fn longer_body_than_declared_stays_at_one() {
    let mut d = download("tool", "u", "p", None);
    d.step(DownloadInput::Begin);
    d.step(DownloadInput::ResponseReceived { content_length: Some(4) });
    d.step(DownloadInput::FileCreated);
    d.step(DownloadInput::ChunkReceived(vec![0; 3]));
    let s = d.step(DownloadInput::ChunkWritten);
    assert_eq!(s.item.unwrap().unwrap().ratio, Ratio { num: 3, den: 4 });
    d.step(DownloadInput::ChunkReceived(vec![0; 3]));
    let s = d.step(DownloadInput::ChunkWritten);
    assert_eq!(s.item.unwrap().unwrap().ratio, Ratio { num: 4, den: 4 });
    d.step(DownloadInput::ChunkReceived(vec![0; 3]));
    let s = d.step(DownloadInput::ChunkWritten);
    let ratio = s.item.unwrap().unwrap().ratio;
    assert_eq!(ratio, Ratio { num: 4, den: 4 });
    assert!(ratio.complete());
}

#[test]
fn undeclared_length_gives_unknown_ratios() {
    let mut d = download("tool", "u", "p", None);
    d.step(DownloadInput::Begin);
    d.step(DownloadInput::ResponseReceived { content_length: None });
    d.step(DownloadInput::FileCreated);
    d.step(DownloadInput::ChunkReceived(vec![0; 3]));
    let s = d.step(DownloadInput::ChunkWritten);
    let ratio = s.item.unwrap().unwrap().ratio;
    assert_eq!(ratio, Ratio { num: 0, den: 0 });
    assert!(!ratio.known());
    assert!(!ratio.complete());
}

#[test]
fn input_out_of_turn_changes_nothing() {
    let mut d = download("tool", "u", "p", None);
    let s = d.step(DownloadInput::ChunkWritten);
    assert!(s.item.is_none());
    assert!(matches!(s.action, DownloadAction::KeepWaiting));
    assert_eq!(d.phase(), Phase::Idle);
    d.step(DownloadInput::Begin);
    let s = d.step(DownloadInput::Begin);
    assert!(s.item.is_none());
    assert!(matches!(s.action, DownloadAction::KeepWaiting));
    assert_eq!(d.phase(), Phase::Requesting);
}

#[test]
fn error_messages() {
    assert_eq!(DownloadError::RequestError("timed out".to_string()).message(), "Request error: timed out");
    assert_eq!(
        DownloadError::HashMismatch("aa".to_string(), "bb".to_string()).message(),
        "Hash mismatch: expected aa, got bb"
    );
    assert_eq!(DownloadError::InvalidHash(HexError::OddLength).message(), "Invalid hash: Odd number of digits");
    assert_eq!(
        DownloadError::InvalidHash(HexError::InvalidStringLength).message(),
        "Invalid hash: Invalid string length"
    );
    assert_eq!(
        DownloadError::InvalidHash(HexError::InvalidHexCharacter { c: '\n', index: 5 }).message(),
        "Invalid hash: Invalid character '\\n' at position 5"
    );
}

#[test]
fn url_and_path_are_kept() {
    let d = download("tool", "https://example.org/a", "/tmp/a", None);
    assert_eq!(d.url(), "https://example.org/a");
    assert_eq!(d.path(), "/tmp/a");
}

#[test]
fn mismatch_carries_the_expected_bytes_and_the_digest_as_64_characters_each() {
    let wrong = "00".repeat(32);
    let mut d = download("tool", "u", "p", Some(wrong.to_uppercase()));
    d.step(DownloadInput::Begin);
    d.step(DownloadInput::ResponseReceived { content_length: Some(3) });
    d.step(DownloadInput::FileCreated);
    d.step(DownloadInput::ChunkReceived(b"abc".to_vec()));
    d.step(DownloadInput::ChunkWritten);
    let last = d.step(DownloadInput::BodyEnded);
    match last.item {
        Some(Err(DownloadError::HashMismatch(expected, actual))) => {
            assert_eq!(expected, wrong);
            assert_eq!(actual, ABC);
            assert_eq!(expected.len(), 64);
            assert_eq!(actual.len(), 64);
            assert_ne!(expected, actual);
            assert_eq!(hex::decode(&actual).unwrap().len(), 32);
        }
        other => panic!("expected a mismatch, got {:?}", other),
    }
}
