use beatcollector::enums::{
    AcquisitionSource, AlbumSource, DownloadStatus, JobStatus, JobType, MatchStatus,
    OwnershipStatus,
};

#[test]
fn ownership_status_codec_round_trip() {
    for v in [
        OwnershipStatus::NotOwned,
        OwnershipStatus::Owned,
        OwnershipStatus::Downloading,
    ] {
        assert_eq!(OwnershipStatus::from_str(v.as_str()), Some(v));
    }
    assert_eq!(OwnershipStatus::from_str("not_owned"), Some(OwnershipStatus::NotOwned));
    assert_eq!(OwnershipStatus::from_str("owned"), Some(OwnershipStatus::Owned));
    assert_eq!(OwnershipStatus::from_str("downloading"), Some(OwnershipStatus::Downloading));
    assert_eq!(OwnershipStatus::from_str("OWNED"), None);
    assert_eq!(OwnershipStatus::from_str(""), None);
    assert_eq!(OwnershipStatus::from_str("bought"), None);
}

#[test]
fn match_status_codec_round_trip() {
    for v in [
        MatchStatus::Pending,
        MatchStatus::Matched,
        MatchStatus::ManualReview,
        MatchStatus::NoMatch,
    ] {
        assert_eq!(MatchStatus::from_str(v.as_str()), Some(v));
    }
    assert_eq!(MatchStatus::from_str("manual_review"), Some(MatchStatus::ManualReview));
    assert_eq!(MatchStatus::from_str("maybe"), None);
}

#[test]
fn job_type_codec_round_trip() {
    for v in [
        JobType::SpotifySync,
        JobType::MusicbrainzMatch,
        JobType::LidarrSearch,
        JobType::CoverArtFetch,
        JobType::FilesystemScan,
    ] {
        assert_eq!(JobType::from_str(v.as_str()), Some(v));
    }
    assert_eq!(JobType::from_str("spotify_sync"), Some(JobType::SpotifySync));
    assert_eq!(JobType::from_str("unknown_job"), None);
}

#[test]
fn job_status_codec_round_trip() {
    for v in [
        JobStatus::Pending,
        JobStatus::Running,
        JobStatus::Completed,
        JobStatus::Failed,
    ] {
        assert_eq!(JobStatus::from_str(v.as_str()), Some(v));
    }
    assert_eq!(JobStatus::from_str("cancelled"), None);
}

#[test]
fn download_status_codec_round_trip() {
    for v in [
        DownloadStatus::Pending,
        DownloadStatus::Searching,
        DownloadStatus::Downloading,
        DownloadStatus::Completed,
        DownloadStatus::Failed,
    ] {
        assert_eq!(DownloadStatus::from_str(v.as_str()), Some(v));
    }
    assert_eq!(DownloadStatus::from_str("stalled"), None);
}

#[test]
fn acquisition_source_codec_round_trip() {
    for v in [
        AcquisitionSource::Bandcamp,
        AcquisitionSource::Physical,
        AcquisitionSource::Lidarr,
        AcquisitionSource::Unknown,
    ] {
        assert_eq!(AcquisitionSource::from_str(v.as_str()), Some(v));
    }
    assert_eq!(AcquisitionSource::from_str("gift"), None);
}

#[test]
fn album_source_codec_round_trip() {
    for v in [AlbumSource::SavedAlbum, AlbumSource::PlaylistImport] {
        assert_eq!(AlbumSource::from_str(v.as_str()), Some(v));
    }
    assert_eq!(AlbumSource::as_str(&AlbumSource::SavedAlbum), "saved_album");
    assert_eq!(AlbumSource::as_str(&AlbumSource::PlaylistImport), "playlist_import");
    assert_eq!(AlbumSource::from_str("imported"), None);
    assert_eq!(AlbumSource::default(), AlbumSource::SavedAlbum);
}
