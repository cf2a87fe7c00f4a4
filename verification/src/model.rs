//! The logical entity model: artists, albums, tracks, playlists, playlist
//! memberships and download-tracking rows, kept as plain values. Identity keys
//! for the four main entities are row indices assigned by the catalog store
//! (auto-increment style); rows are never deleted by sync logic, so keys are
//! stable. Timestamps are milliseconds handed in by the caller.

use vstd::prelude::*;

use crate::enums::{AcquisitionSource, AlbumSource, DownloadStatus, MatchStatus, OwnershipStatus};

verus! {

/// A calendar date, parsed from the streaming service's release-date text.
#[derive(Debug, Clone, Copy, PartialEq, Eq, Structural)]
pub struct ReleaseDate {
    pub year: u32,
    pub month: u8,
    pub day: u8,
}

impl ReleaseDate {
    /// A real calendar date, leap years included.
    pub open spec fn spec_valid(self) -> bool {
        &&& self.year <= 9999
        &&& 1 <= self.month <= 12
        &&& 1 <= self.day <= days_in_month(self.year, self.month)
    }
}

/// Whether `year` is a leap year in the Gregorian calendar.
pub open spec fn is_leap_year(year: u32) -> bool {
    (year % 4 == 0 && year % 100 != 0) || year % 400 == 0
}

/// Number of days in `month` of `year`.
pub open spec fn days_in_month(year: u32, month: u8) -> u8 {
    if month == 2 {
        if is_leap_year(year) {
            29
        } else {
            28
        }
    } else if month == 4 || month == 6 || month == 9 || month == 11 {
        30
    } else {
        31
    }
}

/// An artist row. Created on first reference by any sync task; never deleted.
#[derive(Debug, Clone)]
pub struct Artist {
    pub id: u64,
    pub name: String,
    pub spotify_id: Option<String>,
    pub musicbrainz_id: Option<String>,
    pub created_at: u64,
    pub updated_at: u64,
}

/// An album row.
#[derive(Debug, Clone)]
pub struct Album {
    pub id: u64,
    pub artist_id: u64,
    pub title: String,
    pub spotify_id: Option<String>,
    pub musicbrainz_release_group_id: Option<String>,
    pub release_date: Option<ReleaseDate>,
    pub total_tracks: Option<i32>,
    pub cover_art_url: Option<String>,
    pub genres: Option<Vec<String>>,
    pub ownership_status: OwnershipStatus,
    pub acquisition_source: Option<AcquisitionSource>,
    pub local_path: Option<String>,
    pub match_score: Option<i32>,
    pub match_status: MatchStatus,
    pub source: AlbumSource,
    pub created_at: u64,
    pub updated_at: u64,
    pub last_synced_at: Option<u64>,
}

/// A track row, owned by an album.
#[derive(Debug, Clone)]
pub struct Track {
    pub id: u64,
    pub album_id: u64,
    pub title: String,
    pub track_number: Option<i32>,
    pub disc_number: Option<i32>,
    pub duration_ms: Option<i32>,
    pub spotify_id: Option<String>,
    pub created_at: u64,
    pub updated_at: u64,
}

/// A playlist row. The one synthetic "liked songs" playlist carries a fixed
/// sentinel external id instead of a real one.
#[derive(Debug, Clone)]
pub struct Playlist {
    pub id: u64,
    pub name: String,
    pub spotify_id: String,
    pub description: Option<String>,
    pub owner_name: Option<String>,
    pub is_collaborative: bool,
    pub total_tracks: Option<i32>,
    pub cover_image_url: Option<String>,
    pub snapshot_id: Option<String>,
    pub is_enabled: bool,
    pub is_synthetic: bool,
    /// Denormalized owned-track count; `None` means "not yet computed".
    pub owned_count: Option<i32>,
    pub created_at: u64,
    pub updated_at: u64,
    pub last_synced_at: Option<u64>,
}

/// A playlist membership row: one track at one position of one playlist.
#[derive(Debug, Clone)]
pub struct PlaylistEntry {
    pub id: u64,
    pub playlist_id: u64,
    pub track_id: u64,
    pub position: u32,
    pub added_at: Option<String>,
    pub created_at: u64,
    pub updated_at: u64,
}

/// A download-manager tracking row for one grabbed album.
#[derive(Debug, Clone)]
pub struct LidarrDownload {
    pub id: u64,
    pub album_id: u64,
    pub lidarr_album_id: Option<i32>,
    pub download_id: Option<String>,
    pub status: DownloadStatus,
    pub error_message: Option<String>,
    pub created_at: u64,
    pub completed_at: Option<u64>,
}

} // verus!
