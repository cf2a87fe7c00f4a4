use beatcollector::catalog::Catalog;
use beatcollector::enums::{AcquisitionSource, DownloadStatus, OwnershipStatus};
use beatcollector::lidarr::{
    find_album_by_title_and_artist, parent_dir, webhook, LidarrAlbum, LidarrArtist, LidarrWebhook,
    Quality, QualityDefinition, TrackFile,
};
use beatcollector::spotify::{SpotifyAlbum, SpotifyArtist};
use beatcollector::sync::sync_saved_albums;

fn seeded_catalog() -> Catalog {
    let mut cat = Catalog::new();
    sync_saved_albums(
        &mut cat,
        vec![SpotifyAlbum {
            id: "al1".to_string(),
            name: "Abbey Road".to_string(),
            artists: vec![SpotifyArtist {
                id: "ar1".to_string(),
                name: "The Beatles".to_string(),
            }],
            release_date: "1969-09-26".to_string(),
            total_tracks: 17,
            images: vec![],
            genres: None,
        }],
        1,
    );
    cat
}

fn lidarr_artist() -> LidarrArtist {
    LidarrArtist {
        id: 11,
        artist_name: "The Beatles".to_string(),
        foreign_artist_id: "mb-artist".to_string(),
    }
}

fn lidarr_album(title: &str) -> LidarrAlbum {
    LidarrAlbum { id: 42, title: title.to_string(), release_date: None, monitored: true }
}

#[test]
fn grab_flips_to_downloading_and_records_the_download() {
    let mut cat = seeded_catalog();
    webhook(
        &mut cat,
        LidarrWebhook::Grab {
            artist: lidarr_artist(),
            albums: vec![lidarr_album("Abbey Road")],
            download_id: "dl-7".to_string(),
        },
        10,
    );
    assert_eq!(cat.albums[0].ownership_status, OwnershipStatus::Downloading);
    assert_eq!(cat.downloads.len(), 1);
    assert_eq!(cat.downloads[0].album_id, 0);
    assert_eq!(cat.downloads[0].lidarr_album_id, Some(42));
    assert_eq!(cat.downloads[0].download_id.as_deref(), Some("dl-7"));
    assert_eq!(cat.downloads[0].status, DownloadStatus::Downloading);
}

#[test]
fn import_flips_to_owned_records_path_and_completes_the_download() {
    let mut cat = seeded_catalog();
    webhook(
        &mut cat,
        LidarrWebhook::Grab {
            artist: lidarr_artist(),
            albums: vec![lidarr_album("Abbey Road")],
            download_id: "dl-7".to_string(),
        },
        10,
    );
    webhook(
        &mut cat,
        LidarrWebhook::Download {
            artist: lidarr_artist(),
            albums: vec![lidarr_album("Abbey Road")],
            track_files: vec![TrackFile {
                id: 1,
                path: "/music/The Beatles/Abbey Road/01 Come Together.flac".to_string(),
                quality: Quality { quality: QualityDefinition { name: "FLAC".to_string() } },
            }],
            is_upgrade: false,
        },
        20,
    );
    assert_eq!(cat.albums[0].ownership_status, OwnershipStatus::Owned);
    assert_eq!(cat.albums[0].acquisition_source, Some(AcquisitionSource::Lidarr));
    assert_eq!(cat.albums[0].local_path.as_deref(), Some("/music/The Beatles/Abbey Road"));
    assert_eq!(cat.downloads[0].status, DownloadStatus::Completed);
    assert_eq!(cat.downloads[0].completed_at, Some(20));
}

#[test]
fn failure_falls_back_to_not_owned_and_marks_the_download() {
    let mut cat = seeded_catalog();
    webhook(
        &mut cat,
        LidarrWebhook::Grab {
            artist: lidarr_artist(),
            albums: vec![lidarr_album("Abbey Road")],
            download_id: "dl-7".to_string(),
        },
        10,
    );
    webhook(
        &mut cat,
        LidarrWebhook::DownloadFailure {
            artist: lidarr_artist(),
            albums: vec![lidarr_album("Abbey Road")],
            message: "no seeders".to_string(),
        },
        30,
    );
    assert_eq!(cat.albums[0].ownership_status, OwnershipStatus::NotOwned);
    assert_eq!(cat.downloads[0].status, DownloadStatus::Failed);
    assert_eq!(cat.downloads[0].error_message.as_deref(), Some("no seeders"));
}

#[test]
fn album_events_match_names_fuzzily() {
    let cat = seeded_catalog();
    // the exact name and a near miss both find the album; a different album
    // does not
    assert_eq!(find_album_by_title_and_artist(&cat, "Abbey Road", "The Beatles", 85, 100), Some(0));
    assert_eq!(
        find_album_by_title_and_artist(&cat, "Abbey Roade", "the beatles", 85, 100),
        Some(0)
    );
    assert_eq!(find_album_by_title_and_artist(&cat, "Revolver", "The Beatles", 85, 100), None);
    assert_eq!(find_album_by_title_and_artist(&cat, "Abbey Road", "The Kinks", 85, 100), None);
}

#[test]
fn unmatched_webhook_albums_change_nothing() {
    let mut cat = seeded_catalog();
    webhook(
        &mut cat,
        LidarrWebhook::AlbumDownload {
            artist: lidarr_artist(),
            album: lidarr_album("Completely Different"),
        },
        10,
    );
    assert_eq!(cat.albums[0].ownership_status, OwnershipStatus::NotOwned);
    assert_eq!(cat.downloads.len(), 0);
}

#[test]
fn parent_dir_takes_everything_before_the_last_separator() {
    assert_eq!(parent_dir("/a/b/c.flac").as_deref(), Some("/a/b"));
    assert_eq!(parent_dir("c.flac"), None);
    assert_eq!(parent_dir("/c.flac").as_deref(), Some(""));
    assert_eq!(parent_dir(""), None);
}
