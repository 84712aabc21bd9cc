use artifact_fetch::download::{DownloadAction, DownloadInput, Phase};
use artifact_fetch::error::{DownloadError, ResolveError};
use artifact_fetch::release::{
    display_name, download_github, expected_hash_from, find_asset, latest_release, select_asset,
    text_no_later, Asset, Release,
};

fn asset(name: &str, url: &str) -> Asset {
    Asset { name: name.to_string(), browser_download_url: url.to_string() }
}

fn release(published_at: &str, assets: Vec<Asset>) -> Release {
    Release { published_at: published_at.to_string(), assets }
}

fn two_releases() -> Vec<Release> {
    vec![
        release(
            "2023-01-01",
            vec![asset("old.txt", "https://example.org/2023/old.txt"), asset("tool.zip", "https://example.org/2023/tool.zip")],
        ),
        release(
            "2024-06-01",
            vec![asset("notes.txt", "https://example.org/2024/notes.txt"), asset("tool.zip", "https://example.org/2024/tool.zip")],
        ),
    ]
}

#[test]
fn later_of_two_releases_is_selected() {
    let releases = two_releases();
    assert_eq!(latest_release(&releases), Some(1));
    let chosen = select_asset("owner/tool", &releases, |name: &str| name.ends_with(".zip")).unwrap();
    assert_eq!(chosen.url, "https://example.org/2024/tool.zip");
    assert_eq!(chosen.display_name, "tool");
}

#[test]
fn later_release_is_selected_wherever_it_stands() {
    let mut releases = two_releases();
    releases.reverse();
    assert_eq!(latest_release(&releases), Some(0));
    let chosen = select_asset("owner/tool", &releases, |name: &str| name.ends_with(".zip")).unwrap();
    assert_eq!(chosen.url, "https://example.org/2024/tool.zip");
}

#[test]
fn last_of_equal_timestamps_is_selected() {
    let releases = vec![
        release("2024-06-01T00:00:00Z", vec![]),
        release("2024-06-01T00:00:00Z", vec![]),
        release("2024-05-01T00:00:00Z", vec![]),
    ];
    assert_eq!(latest_release(&releases), Some(1));
}

#[test]
fn no_release_no_selection() {
    let releases: Vec<Release> = Vec::new();
    assert_eq!(latest_release(&releases), None);
    let chosen = select_asset("owner/tool", &releases, |_: &str| true);
    assert_eq!(chosen.err(), Some(ResolveError::NoRelease));
    assert_eq!(ResolveError::NoRelease.message(), "Finding latest version");
}

#[test]
fn no_accepted_asset_no_selection() {
    let releases = two_releases();
    let chosen = select_asset("owner/tool", &releases, |name: &str| name.ends_with(".7z"));
    assert_eq!(chosen.err(), Some(ResolveError::NoAsset));
    assert_eq!(ResolveError::NoAsset.message(), "Finding zip asset");
}

#[test]
fn asset_of_an_older_release_is_not_taken() {
    let releases = vec![
        release("2023-01-01", vec![asset("tool.zip", "https://example.org/2023/tool.zip")]),
        release("2024-06-01", vec![asset("notes.txt", "https://example.org/2024/notes.txt")]),
    ];
    let chosen = select_asset("owner/tool", &releases, |name: &str| name.ends_with(".zip"));
    assert_eq!(chosen.err(), Some(ResolveError::NoAsset));
}

#[test]
fn first_accepted_asset_is_found() {
    let assets = vec![asset("a.txt", "1"), asset("b.zip", "2"), asset("c.zip", "3")];
    assert_eq!(find_asset(&assets, |name: &str| name.ends_with(".zip")), Some(1));
    assert_eq!(find_asset(&assets, |name: &str| name.starts_with('a')), Some(0));
    assert_eq!(find_asset(&assets, |name: &str| name.is_empty()), None);
    assert_eq!(find_asset(&Vec::new(), |_: &str| true), None);
}

#[test]
fn texts_are_ordered_byte_by_byte() {
    assert!(text_no_later("2023-01-01", "2024-06-01"));
    assert!(!text_no_later("2024-06-01", "2023-01-01"));
    assert!(text_no_later("2024-06-01", "2024-06-01"));
    assert!(text_no_later("", "a"));
    assert!(!text_no_later("a", ""));
    assert!(text_no_later("2024", "2024-06"));
    assert!(!text_no_later("2024-06", "2024"));
    assert!(text_no_later("z", "é"));
    assert_eq!(text_no_later("abc", "abd"), "abc" <= "abd");
}

#[test]
fn display_name_is_the_last_segment() {
    assert_eq!(display_name("owner/tool"), "tool");
    assert_eq!(display_name("tool"), "tool");
    assert_eq!(display_name("a/b/c"), "c");
    assert_eq!(display_name("owner/"), "");
    assert_eq!(display_name(""), "");
    assert_eq!(display_name("/"), "");
    assert_eq!(display_name("ownér/tøøl"), "tøøl");
}

#[test]
fn hash_text_is_trimmed() {
    assert_eq!(expected_hash_from(" abc\n"), "abc");
    assert_eq!(expected_hash_from("abc"), "abc");
    assert_eq!(expected_hash_from("\t a b \r\n"), "a b");
    assert_eq!(expected_hash_from("  "), "");
}

#[test]
fn resolved_download_uses_the_trimmed_hash() {
    let releases = two_releases();
    let hash = "ba7816bf8f01cfea414140de5dae2223b00361a396177a9cb410ff61f20015ad";
    let mut d = download_github(
        "owner/tool",
        &releases,
        |name: &str| name.ends_with(".zip"),
        "/tmp/tool.zip",
        Some(format!("{}\n", hash)),
    )
    .unwrap();
    assert_eq!(d.url(), "https://example.org/2024/tool.zip");
    assert_eq!(d.path(), "/tmp/tool.zip");
    assert_eq!(d.phase(), Phase::Idle);
    let first = d.step(DownloadInput::Begin);
    assert_eq!(first.item.unwrap().unwrap().message, "Downloading tool");
    d.step(DownloadInput::ResponseReceived { content_length: Some(3) });
    d.step(DownloadInput::FileCreated);
    d.step(DownloadInput::ChunkReceived(b"abc".to_vec()));
    d.step(DownloadInput::ChunkWritten);
    let last = d.step(DownloadInput::BodyEnded);
    assert!(last.item.is_none());
    assert!(matches!(last.action, DownloadAction::Stop));
    assert_eq!(d.phase(), Phase::Succeeded);
}

#[test]
fn resolved_download_without_hash_checks_nothing() {
    let releases = two_releases();
    let mut d =
        download_github("owner/tool", &releases, |name: &str| name.ends_with(".zip"), "/tmp/t", None).unwrap();
    d.step(DownloadInput::Begin);
    d.step(DownloadInput::ResponseReceived { content_length: None });
    d.step(DownloadInput::FileCreated);
    let last = d.step(DownloadInput::BodyEnded);
    assert!(last.item.is_none());
    assert_eq!(d.phase(), Phase::Succeeded);
}

#[test]
fn resolved_download_with_a_wrong_hash_fails_at_the_end() {
    let releases = two_releases();
    let mut d = download_github(
        "owner/tool",
        &releases,
        |name: &str| name.ends_with(".zip"),
        "/tmp/t",
        Some("00".to_string()),
    )
    .unwrap();
    d.step(DownloadInput::Begin);
    d.step(DownloadInput::ResponseReceived { content_length: None });
    d.step(DownloadInput::FileCreated);
    let last = d.step(DownloadInput::BodyEnded);
    assert!(matches!(last.item, Some(Err(DownloadError::HashMismatch(_, _)))));
}

#[test]
fn resolver_errors_come_before_any_download() {
    let none: Vec<Release> = Vec::new();
    assert_eq!(download_github("o/t", &none, |_: &str| true, "/tmp/t", None).err(), Some(ResolveError::NoRelease));
    let releases = two_releases();
    assert_eq!(
        download_github("o/t", &releases, |_: &str| false, "/tmp/t", None).err(),
        Some(ResolveError::NoAsset)
    );
}

#[test]
fn trimming_agrees_with_the_standard_library_on_every_character() {
    for n in 0..=0x10FFFFu32 {
        if let Some(c) = char::from_u32(n) {
            let alone = c.to_string();
            assert_eq!(expected_hash_from(&alone), alone.trim(), "U+{:04X}", n);
            if n < 0x3100 {
                let around = format!("{c}a{c}b{c}");
                assert_eq!(expected_hash_from(&around), around.trim(), "U+{:04X}", n);
            }
        }
    }
}

#[test]
fn white_space_of_every_kind_is_cut_at_both_ends_only() {
    assert_eq!(expected_hash_from("\u{3000}\u{2028}ab\u{A0}cd\u{85}\u{1680}"), "ab\u{A0}cd");
    assert_eq!(expected_hash_from("\u{200B}ab\u{200B}"), "\u{200B}ab\u{200B}");
    assert_eq!(expected_hash_from("\u{180E}ab"), "\u{180E}ab");
    assert_eq!(expected_hash_from("\u{0B}\u{0C}\r\n"), "");
    assert_eq!(expected_hash_from(""), "");
    assert_eq!(
        expected_hash_from("ba7816bf8f01cfea414140de5dae2223b00361a396177a9cb410ff61f20015ad  tool.zip\n"),
        "ba7816bf8f01cfea414140de5dae2223b00361a396177a9cb410ff61f20015ad  tool.zip"
    );
}
