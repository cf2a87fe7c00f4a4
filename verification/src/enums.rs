//! Closed tagged-union types that the persistence boundary stores as text,
//! each with an exact string codec. An unknown stored string decodes to
//! `None`, so schema drift fails loudly instead of silently defaulting.

use vstd::prelude::*;

verus! {

/// Compare two string slices for character-for-character equality.
pub fn str_eq(a: &str, b: &str) -> (r: bool)
    ensures
        r == (a@ == b@),
{
    let sa = a.to_owned();
    let sb = b.to_owned();
    sa == sb
}

/// Ownership of an album in the local collection.
#[derive(Debug, Clone, Copy, PartialEq, Eq, Structural)]
pub enum OwnershipStatus {
    NotOwned,
    Owned,
    Downloading,
}

impl OwnershipStatus {
    /// The exact text under which this variant is persisted.
    pub open spec fn spec_str(self) -> Seq<char> {
        match self {
            OwnershipStatus::NotOwned => "not_owned"@,
            OwnershipStatus::Owned => "owned"@,
            OwnershipStatus::Downloading => "downloading"@,
        }
    }

    pub fn as_str(&self) -> (r: &'static str)
        ensures
            r@ == self.spec_str(),
    {
        match self {
            OwnershipStatus::NotOwned => "not_owned",
            OwnershipStatus::Owned => "owned",
            OwnershipStatus::Downloading => "downloading",
        }
    }

    pub fn from_str(s: &str) -> (r: Option<OwnershipStatus>)
        ensures
            match r {
                Some(v) => s@ == v.spec_str(),
                None => forall|v: OwnershipStatus| s@ != v.spec_str(),
            },
    {
        if str_eq(s, "not_owned") {
            Some(OwnershipStatus::NotOwned)
        } else if str_eq(s, "owned") {
            Some(OwnershipStatus::Owned)
        } else if str_eq(s, "downloading") {
            Some(OwnershipStatus::Downloading)
        } else {
            None
        }
    }
}

/// How far an album has come in being matched to a canonical release.
#[derive(Debug, Clone, Copy, PartialEq, Eq, Structural)]
pub enum MatchStatus {
    Pending,
    Matched,
    ManualReview,
    NoMatch,
}

impl MatchStatus {
    pub open spec fn spec_str(self) -> Seq<char> {
        match self {
            MatchStatus::Pending => "pending"@,
            MatchStatus::Matched => "matched"@,
            MatchStatus::ManualReview => "manual_review"@,
            MatchStatus::NoMatch => "no_match"@,
        }
    }

    pub fn as_str(&self) -> (r: &'static str)
        ensures
            r@ == self.spec_str(),
    {
        match self {
            MatchStatus::Pending => "pending",
            MatchStatus::Matched => "matched",
            MatchStatus::ManualReview => "manual_review",
            MatchStatus::NoMatch => "no_match",
        }
    }

    pub fn from_str(s: &str) -> (r: Option<MatchStatus>)
        ensures
            match r {
                Some(v) => s@ == v.spec_str(),
                None => forall|v: MatchStatus| s@ != v.spec_str(),
            },
    {
        if str_eq(s, "pending") {
            Some(MatchStatus::Pending)
        } else if str_eq(s, "matched") {
            Some(MatchStatus::Matched)
        } else if str_eq(s, "manual_review") {
            Some(MatchStatus::ManualReview)
        } else if str_eq(s, "no_match") {
            Some(MatchStatus::NoMatch)
        } else {
            None
        }
    }
}

/// The fixed set of background job kinds.
#[derive(Debug, Clone, Copy, PartialEq, Eq, Structural)]
pub enum JobType {
    SpotifySync,
    MusicbrainzMatch,
    LidarrSearch,
    CoverArtFetch,
    FilesystemScan,
}

impl JobType {
    pub open spec fn spec_str(self) -> Seq<char> {
        match self {
            JobType::SpotifySync => "spotify_sync"@,
            JobType::MusicbrainzMatch => "musicbrainz_match"@,
            JobType::LidarrSearch => "lidarr_search"@,
            JobType::CoverArtFetch => "cover_art_fetch"@,
            JobType::FilesystemScan => "filesystem_scan"@,
        }
    }

    pub fn as_str(&self) -> (r: &'static str)
        ensures
            r@ == self.spec_str(),
    {
        match self {
            JobType::SpotifySync => "spotify_sync",
            JobType::MusicbrainzMatch => "musicbrainz_match",
            JobType::LidarrSearch => "lidarr_search",
            JobType::CoverArtFetch => "cover_art_fetch",
            JobType::FilesystemScan => "filesystem_scan",
        }
    }

    pub fn from_str(s: &str) -> (r: Option<JobType>)
        ensures
            match r {
                Some(v) => s@ == v.spec_str(),
                None => forall|v: JobType| s@ != v.spec_str(),
            },
    {
        if str_eq(s, "spotify_sync") {
            Some(JobType::SpotifySync)
        } else if str_eq(s, "musicbrainz_match") {
            Some(JobType::MusicbrainzMatch)
        } else if str_eq(s, "lidarr_search") {
            Some(JobType::LidarrSearch)
        } else if str_eq(s, "cover_art_fetch") {
            Some(JobType::CoverArtFetch)
        } else if str_eq(s, "filesystem_scan") {
            Some(JobType::FilesystemScan)
        } else {
            None
        }
    }
}

/// Lifecycle state of a background job row.
#[derive(Debug, Clone, Copy, PartialEq, Eq, Structural)]
pub enum JobStatus {
    Pending,
    Running,
    Completed,
    Failed,
}

impl JobStatus {
    pub open spec fn spec_str(self) -> Seq<char> {
        match self {
            JobStatus::Pending => "pending"@,
            JobStatus::Running => "running"@,
            JobStatus::Completed => "completed"@,
            JobStatus::Failed => "failed"@,
        }
    }

    pub fn as_str(&self) -> (r: &'static str)
        ensures
            r@ == self.spec_str(),
    {
        match self {
            JobStatus::Pending => "pending",
            JobStatus::Running => "running",
            JobStatus::Completed => "completed",
            JobStatus::Failed => "failed",
        }
    }

    pub fn from_str(s: &str) -> (r: Option<JobStatus>)
        ensures
            match r {
                Some(v) => s@ == v.spec_str(),
                None => forall|v: JobStatus| s@ != v.spec_str(),
            },
    {
        if str_eq(s, "pending") {
            Some(JobStatus::Pending)
        } else if str_eq(s, "running") {
            Some(JobStatus::Running)
        } else if str_eq(s, "completed") {
            Some(JobStatus::Completed)
        } else if str_eq(s, "failed") {
            Some(JobStatus::Failed)
        } else {
            None
        }
    }
}

/// State of a tracked download-manager acquisition.
#[derive(Debug, Clone, Copy, PartialEq, Eq, Structural)]
pub enum DownloadStatus {
    Pending,
    Searching,
    Downloading,
    Completed,
    Failed,
}

impl DownloadStatus {
    pub open spec fn spec_str(self) -> Seq<char> {
        match self {
            DownloadStatus::Pending => "pending"@,
            DownloadStatus::Searching => "searching"@,
            DownloadStatus::Downloading => "downloading"@,
            DownloadStatus::Completed => "completed"@,
            DownloadStatus::Failed => "failed"@,
        }
    }

    pub fn as_str(&self) -> (r: &'static str)
        ensures
            r@ == self.spec_str(),
    {
        match self {
            DownloadStatus::Pending => "pending",
            DownloadStatus::Searching => "searching",
            DownloadStatus::Downloading => "downloading",
            DownloadStatus::Completed => "completed",
            DownloadStatus::Failed => "failed",
        }
    }

    pub fn from_str(s: &str) -> (r: Option<DownloadStatus>)
        ensures
            match r {
                Some(v) => s@ == v.spec_str(),
                None => forall|v: DownloadStatus| s@ != v.spec_str(),
            },
    {
        if str_eq(s, "pending") {
            Some(DownloadStatus::Pending)
        } else if str_eq(s, "searching") {
            Some(DownloadStatus::Searching)
        } else if str_eq(s, "downloading") {
            Some(DownloadStatus::Downloading)
        } else if str_eq(s, "completed") {
            Some(DownloadStatus::Completed)
        } else if str_eq(s, "failed") {
            Some(DownloadStatus::Failed)
        } else {
            None
        }
    }
}

/// How an owned album entered the collection.
#[derive(Debug, Clone, Copy, PartialEq, Eq, Structural)]
pub enum AcquisitionSource {
    Bandcamp,
    Physical,
    Lidarr,
    Unknown,
}

impl AcquisitionSource {
    pub open spec fn spec_str(self) -> Seq<char> {
        match self {
            AcquisitionSource::Bandcamp => "bandcamp"@,
            AcquisitionSource::Physical => "physical"@,
            AcquisitionSource::Lidarr => "lidarr"@,
            AcquisitionSource::Unknown => "unknown"@,
        }
    }

    pub fn as_str(&self) -> (r: &'static str)
        ensures
            r@ == self.spec_str(),
    {
        match self {
            AcquisitionSource::Bandcamp => "bandcamp",
            AcquisitionSource::Physical => "physical",
            AcquisitionSource::Lidarr => "lidarr",
            AcquisitionSource::Unknown => "unknown",
        }
    }

    pub fn from_str(s: &str) -> (r: Option<AcquisitionSource>)
        ensures
            match r {
                Some(v) => s@ == v.spec_str(),
                None => forall|v: AcquisitionSource| s@ != v.spec_str(),
            },
    {
        if str_eq(s, "bandcamp") {
            Some(AcquisitionSource::Bandcamp)
        } else if str_eq(s, "physical") {
            Some(AcquisitionSource::Physical)
        } else if str_eq(s, "lidarr") {
            Some(AcquisitionSource::Lidarr)
        } else if str_eq(s, "unknown") {
            Some(AcquisitionSource::Unknown)
        } else {
            None
        }
    }
}

/// Provenance of an album row: pulled from the saved library, or created as a
/// side effect of importing a playlist.
#[derive(Debug, Clone, Copy, PartialEq, Eq, Structural)]
pub enum AlbumSource {
    SavedAlbum,
    PlaylistImport,
}

impl AlbumSource {
    pub open spec fn spec_str(self) -> Seq<char> {
        match self {
            AlbumSource::SavedAlbum => "saved_album"@,
            AlbumSource::PlaylistImport => "playlist_import"@,
        }
    }

    pub fn as_str(&self) -> (r: &'static str)
        ensures
            r@ == self.spec_str(),
    {
        match self {
            AlbumSource::SavedAlbum => "saved_album",
            AlbumSource::PlaylistImport => "playlist_import",
        }
    }

    pub fn from_str(s: &str) -> (r: Option<AlbumSource>)
        ensures
            match r {
                Some(v) => s@ == v.spec_str(),
                None => forall|v: AlbumSource| s@ != v.spec_str(),
            },
    {
        if str_eq(s, "saved_album") {
            Some(AlbumSource::SavedAlbum)
        } else if str_eq(s, "playlist_import") {
            Some(AlbumSource::PlaylistImport)
        } else {
            None
        }
    }
}

impl Default for AlbumSource {
    fn default() -> (r: Self)
        ensures
            r == AlbumSource::SavedAlbum,
    {
        AlbumSource::SavedAlbum
    }
}

} // verus!
