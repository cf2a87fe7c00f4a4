use beatcollector::catalog::Catalog;
use beatcollector::enums::{AcquisitionSource, OwnershipStatus};
use beatcollector::scan::{count_audio_files, is_audio_extension, run_filesystem_scan, ScannedFolder};
use beatcollector::spotify::{SpotifyAlbum, SpotifyArtist};
use beatcollector::sync::sync_saved_albums;

fn seeded_catalog() -> Catalog {
    let mut cat = Catalog::new();
    sync_saved_albums(
        &mut cat,
        vec![SpotifyAlbum {
            id: "al1".to_string(),
            name: "Blue".to_string(),
            artists: vec![SpotifyArtist {
                id: "ar1".to_string(),
                name: "Joni Mitchell".to_string(),
            }],
            release_date: "1971".to_string(),
            total_tracks: 10,
            images: vec![],
            genres: None,
        }],
        1,
    );
    cat
}

fn folder(artist: &str, album: &str, count: usize) -> ScannedFolder {
    ScannedFolder {
        artist_name: artist.to_string(),
        album_name: album.to_string(),
        audio_file_count: count,
        path: format!("/music/{}/{}", artist, album),
    }
}

#[test]
fn audio_extensions_are_matched_case_insensitively() {
    for ext in ["mp3", "flac", "m4a", "ogg", "opus", "wav", "aac", "FLAC", "Mp3"] {
        assert!(is_audio_extension(ext), "{} should count", ext);
    }
    for ext in ["txt", "jpg", "cue", "", "mp4"] {
        assert!(!is_audio_extension(ext), "{} should not count", ext);
    }
}

#[test]
fn counting_ignores_non_audio_files() {
    let files = vec![
        "flac".to_string(),
        "jpg".to_string(),
        "FLAC".to_string(),
        "log".to_string(),
        "mp3".to_string(),
    ];
    assert_eq!(count_audio_files(&files), 3);
    assert_eq!(count_audio_files(&vec![]), 0);
}

#[test]
fn scan_flips_matched_folders_with_enough_media_files() {
    let mut cat = seeded_catalog();
    run_filesystem_scan(&mut cat, vec![folder("Joni Mitchell", "Blue", 10)], 9);
    assert_eq!(cat.albums[0].ownership_status, OwnershipStatus::Owned);
    assert_eq!(cat.albums[0].acquisition_source, Some(AcquisitionSource::Unknown));
    assert_eq!(cat.albums[0].local_path.as_deref(), Some("/music/Joni Mitchell/Blue"));
}

#[test]
fn scan_accepts_only_folders_with_at_least_three_media_files() {
    let mut cat = seeded_catalog();
    run_filesystem_scan(&mut cat, vec![folder("Joni Mitchell", "Blue", 2)], 9);
    assert_eq!(cat.albums[0].ownership_status, OwnershipStatus::NotOwned);

    run_filesystem_scan(&mut cat, vec![folder("Joni Mitchell", "Blue", 3)], 9);
    assert_eq!(cat.albums[0].ownership_status, OwnershipStatus::Owned);
}

#[test]
fn scan_keeps_an_already_recorded_acquisition_source() {
    let mut cat = seeded_catalog();
    cat.albums[0].acquisition_source = Some(AcquisitionSource::Bandcamp);
    run_filesystem_scan(&mut cat, vec![folder("Joni Mitchell", "Blue", 12)], 9);
    assert_eq!(cat.albums[0].ownership_status, OwnershipStatus::Owned);
    assert_eq!(cat.albums[0].acquisition_source, Some(AcquisitionSource::Bandcamp));
}

#[test]
fn scan_matches_folder_names_fuzzily() {
    let mut cat = seeded_catalog();
    // case slip in the artist folder plus a missing letter: 12/13 similar
    run_filesystem_scan(&mut cat, vec![folder("joni mitchel", "Blue", 5)], 9);
    assert_eq!(cat.albums[0].ownership_status, OwnershipStatus::Owned);

    let mut cat2 = seeded_catalog();
    run_filesystem_scan(&mut cat2, vec![folder("Somebody Else", "Blue", 5)], 9);
    assert_eq!(cat2.albums[0].ownership_status, OwnershipStatus::NotOwned);
}
