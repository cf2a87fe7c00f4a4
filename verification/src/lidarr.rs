//! Acquisition reconciliation, path one: download-manager webhook events.
//! Payloads carry artist and album names but no shared id, so albums are
//! identified by exact name match first, falling back to the fuzzy matcher
//! against the catalog. Every ownership change triggers the statistics
//! maintainer synchronously.

use vstd::prelude::*;

use crate::catalog::{opt_sv, Catalog, CatalogModel};
use crate::enums::{AcquisitionSource, DownloadStatus, OwnershipStatus};
use crate::fuzzy::{names_match, spec_names_match};
use crate::model::{Album, Artist, LidarrDownload};
use crate::stats::{
    spec_owned_count, spec_playlist_affected, spec_update_playlists_for_album,
    update_playlists_for_album,
};

verus! {

/// An artist as the download manager reports it.
#[derive(Debug, Clone)]
pub struct LidarrArtist {
    pub id: i32,
    pub artist_name: String,
    pub foreign_artist_id: String,
}

/// An album as the download manager reports it.
#[derive(Debug)]
pub struct LidarrAlbum {
    pub id: i32,
    pub title: String,
    pub release_date: Option<String>,
    pub monitored: bool,
}

/// One imported media file of a completed download.
#[derive(Debug)]
pub struct TrackFile {
    pub id: i32,
    pub path: String,
    pub quality: Quality,
}

/// Quality wrapper of an imported file.
#[derive(Debug)]
pub struct Quality {
    pub quality: QualityDefinition,
}

/// Named quality of an imported file.
#[derive(Debug)]
pub struct QualityDefinition {
    pub name: String,
}

/// The discriminated webhook payload of the download manager.
#[derive(Debug)]
pub enum LidarrWebhook {
    Grab { artist: LidarrArtist, albums: Vec<LidarrAlbum>, download_id: String },
    Download {
        artist: LidarrArtist,
        albums: Vec<LidarrAlbum>,
        track_files: Vec<TrackFile>,
        is_upgrade: bool,
    },
    AlbumDownload { artist: LidarrArtist, album: LidarrAlbum },
    DownloadFailure { artist: LidarrArtist, albums: Vec<LidarrAlbum>, message: String },
}

/// First artist row (at or after `i`) whose name matches `name` under the
/// fuzzy threshold `num / den`.
pub open spec fn find_matching_artist_from(
    artists: Seq<Artist>,
    name: Seq<char>,
    num: int,
    den: int,
    i: int,
) -> Option<int>
    decreases artists.len() - i,
{
    if i < 0 || i >= artists.len() {
        None
    } else if spec_names_match(artists[i].name@, name, num, den) {
        Some(i)
    } else {
        find_matching_artist_from(artists, name, num, den, i + 1)
    }
}

/// First album row (at or after `i`) of artist `aid` whose title matches
/// `title` under the fuzzy threshold.
pub open spec fn find_matching_album_from(
    albums: Seq<Album>,
    aid: u64,
    title: Seq<char>,
    num: int,
    den: int,
    i: int,
) -> Option<int>
    decreases albums.len() - i,
{
    if i < 0 || i >= albums.len() {
        None
    } else if albums[i].artist_id == aid && spec_names_match(albums[i].title@, title, num, den) {
        Some(i)
    } else {
        find_matching_album_from(albums, aid, title, num, den, i + 1)
    }
}

/// The album row named by free-text artist and album names: the first artist
/// whose name matches, then the first of that artist's albums whose title
/// matches.
pub open spec fn spec_find_album_by_names(
    m: CatalogModel,
    artist_name: Seq<char>,
    title: Seq<char>,
    num: int,
    den: int,
) -> Option<int> {
    match find_matching_artist_from(m.artists, artist_name, num, den, 0) {
        Some(ai) => find_matching_album_from(m.albums, m.artists[ai].id, title, num, den, 0),
        None => None,
    }
}

/// First artist row whose name matches, under the fuzzy threshold.
fn find_matching_artist(cat: &Catalog, artist_name: &str, num: u32, den: u32) -> (r: Option<usize>)
    ensures
        match r {
            Some(i) => i < cat@.artists.len() && find_matching_artist_from(
                cat@.artists,
                artist_name@,
                num as int,
                den as int,
                0,
            ) == Some(i as int),
            None => find_matching_artist_from(
                cat@.artists,
                artist_name@,
                num as int,
                den as int,
                0,
            ) is None,
        },
{
    let na = cat.artists.len();
    for i in 0..na
        invariant
            na == cat@.artists.len(),
            find_matching_artist_from(cat@.artists, artist_name@, num as int, den as int, 0)
                == find_matching_artist_from(
                cat@.artists,
                artist_name@,
                num as int,
                den as int,
                i as int,
            ),
    {
        if names_match(cat.artists[i].name.as_str(), artist_name, num, den) {
            return Some(i);
        }
        proof {
            assert(find_matching_artist_from(
                cat@.artists,
                artist_name@,
                num as int,
                den as int,
                i as int,
            ) == find_matching_artist_from(
                cat@.artists,
                artist_name@,
                num as int,
                den as int,
                i + 1,
            ));
        }
    }
    None
}

/// First album row of the given artist whose title matches, under the fuzzy
/// threshold.
fn find_matching_album(cat: &Catalog, aid: u64, title: &str, num: u32, den: u32) -> (r: Option<
    usize,
>)
    ensures
        match r {
            Some(i) => i < cat@.albums.len() && find_matching_album_from(
                cat@.albums,
                aid,
                title@,
                num as int,
                den as int,
                0,
            ) == Some(i as int),
            None => find_matching_album_from(
                cat@.albums,
                aid,
                title@,
                num as int,
                den as int,
                0,
            ) is None,
        },
{
    let nb = cat.albums.len();
    for j in 0..nb
        invariant
            nb == cat@.albums.len(),
            find_matching_album_from(cat@.albums, aid, title@, num as int, den as int, 0)
                == find_matching_album_from(
                cat@.albums,
                aid,
                title@,
                num as int,
                den as int,
                j as int,
            ),
    {
        if cat.albums[j].artist_id == aid && names_match(
            cat.albums[j].title.as_str(),
            title,
            num,
            den,
        ) {
            return Some(j);
        }
        proof {
            assert(find_matching_album_from(
                cat@.albums,
                aid,
                title@,
                num as int,
                den as int,
                j as int,
            ) == find_matching_album_from(
                cat@.albums,
                aid,
                title@,
                num as int,
                den as int,
                j + 1,
            ));
        }
    }
    None
}

/// Find an album by free-text artist and album names, case-insensitively and
/// with fuzzy similarity above `num / den` (an O(catalog) scan).
pub fn find_album_by_title_and_artist(
    cat: &Catalog,
    title: &str,
    artist_name: &str,
    num: u32,
    den: u32,
) -> (r: Option<u64>)
    ensures
        match r {
            Some(ai) => ai < cat@.albums.len() && spec_find_album_by_names(
                cat@,
                artist_name@,
                title@,
                num as int,
                den as int,
            ) == Some(ai as int),
            None => spec_find_album_by_names(cat@, artist_name@, title@, num as int, den as int)
                is None,
        },
{
    match find_matching_artist(cat, artist_name, num, den) {
        None => None,
        Some(ai) => {
            let aid = cat.artists[ai].id;
            match find_matching_album(cat, aid, title, num, den) {
                None => None,
                Some(j) => Some(j as u64),
            }
        },
    }
}

/// Model of one "Grab": a matched album flips to `Downloading` and a fresh
/// tracking row is recorded; an unmatched name changes nothing.
pub open spec fn spec_handle_grab_one(
    m: CatalogModel,
    artist_name: Seq<char>,
    album_title: Seq<char>,
    lidarr_album_id: i32,
    download_id: String,
    now: u64,
) -> CatalogModel {
    match spec_find_album_by_names(m, artist_name, album_title, 85, 100) {
        Some(ai) => CatalogModel {
            albums: m.albums.update(
                ai,
                Album {
                    ownership_status: OwnershipStatus::Downloading,
                    updated_at: now,
                    ..m.albums[ai]
                },
            ),
            downloads: m.downloads.push(
                LidarrDownload {
                    id: m.next_download_id,
                    album_id: ai as u64,
                    lidarr_album_id: Some(lidarr_album_id),
                    download_id: Some(download_id),
                    status: DownloadStatus::Downloading,
                    error_message: None,
                    created_at: now,
                    completed_at: None,
                },
            ),
            next_download_id: (m.next_download_id + 1) as u64,
            ..m
        },
        None => m,
    }
}

/// Model of one import ("Download" / "AlbumDownload"): a matched album flips
/// to `Owned` from the download manager at the given path, its tracking row
/// is completed, and the affected playlists' counts are refreshed.
pub open spec fn spec_handle_download_one(
    m: CatalogModel,
    artist_name: Seq<char>,
    album_title: Seq<char>,
    lidarr_album_id: i32,
    local_path: Option<String>,
    now: u64,
) -> CatalogModel {
    match spec_find_album_by_names(m, artist_name, album_title, 85, 100) {
        Some(ai) => {
            let mid = CatalogModel {
                albums: m.albums.update(
                    ai,
                    Album {
                        ownership_status: OwnershipStatus::Owned,
                        acquisition_source: Some(AcquisitionSource::Lidarr),
                        local_path: local_path,
                        updated_at: now,
                        ..m.albums[ai]
                    },
                ),
                downloads: spec_complete_download(m.downloads, ai as u64, lidarr_album_id, now),
                ..m
            };
            spec_update_playlists_for_album(mid, ai as u64, now)
        },
        None => m,
    }
}

/// Model of one "DownloadFailure": a matched album falls back to `NotOwned`,
/// its tracking row is failed with the message, and the affected playlists'
/// counts are refreshed.
pub open spec fn spec_handle_download_failure_one(
    m: CatalogModel,
    artist_name: Seq<char>,
    album_title: Seq<char>,
    lidarr_album_id: i32,
    error_message: String,
    now: u64,
) -> CatalogModel {
    match spec_find_album_by_names(m, artist_name, album_title, 85, 100) {
        Some(ai) => {
            let mid = CatalogModel {
                albums: m.albums.update(
                    ai,
                    Album {
                        ownership_status: OwnershipStatus::NotOwned,
                        updated_at: now,
                        ..m.albums[ai]
                    },
                ),
                downloads: spec_fail_download(
                    m.downloads,
                    ai as u64,
                    lidarr_album_id,
                    error_message,
                    now,
                ),
                ..m
            };
            spec_update_playlists_for_album(mid, ai as u64, now)
        },
        None => m,
    }
}

/// A "Grab" event for one album: the download started, so a matched album is
/// flipped to `Downloading` and a download-tracking row is recorded. An
/// unmatched name changes nothing.
pub fn handle_grab_one(
    cat: &mut Catalog,
    artist_name: &str,
    album_title: &str,
    lidarr_album_id: i32,
    download_id: String,
    now: u64,
) -> (r: Option<u64>)
    requires
        old(cat).wf(),
        old(cat)@.next_download_id < u64::MAX,
    ensures
        final(cat).wf(),
        final(cat)@ == spec_handle_grab_one(
            old(cat)@,
            artist_name@,
            album_title@,
            lidarr_album_id,
            download_id,
            now,
        ),
        match spec_find_album_by_names(old(cat)@, artist_name@, album_title@, 85, 100) {
            Some(ai) => r == Some(ai as u64),
            None => r is None,
        },
{
    let found = find_album_by_title_and_artist(cat, album_title, artist_name, 85, 100);
    match found {
        None => None,
        Some(ai) => {
            let ghost m0 = cat@;
            let i = ai as usize;
            let n = cat.albums.len();
            proof {
                assert(ai < n as u64);
                assert(i as int == ai as int);
            }
            let ghost dlid = download_id;
            let row = &mut cat.albums[i];
            row.ownership_status = OwnershipStatus::Downloading;
            row.updated_at = now;
            let record = LidarrDownload {
                id: cat.next_download_id,
                album_id: ai,
                lidarr_album_id: Some(lidarr_album_id),
                download_id: Some(download_id),
                status: DownloadStatus::Downloading,
                error_message: None,
                created_at: now,
                completed_at: None,
            };
            cat.downloads.push(record);
            cat.next_download_id = cat.next_download_id + 1;
            proof {
                assert(cat@.albums =~= m0.albums.update(
                    ai as int,
                    Album {
                        ownership_status: OwnershipStatus::Downloading,
                        updated_at: now,
                        ..m0.albums[ai as int]
                    },
                ));
                assert(cat@.downloads =~= m0.downloads.push(
                    LidarrDownload {
                        id: m0.next_download_id,
                        album_id: ai,
                        lidarr_album_id: Some(lidarr_album_id),
                        download_id: Some(dlid),
                        status: DownloadStatus::Downloading,
                        error_message: None,
                        created_at: now,
                        completed_at: None,
                    },
                ));
                assert(cat@ =~= spec_handle_grab_one(
                    m0,
                    artist_name@,
                    album_title@,
                    lidarr_album_id,
                    dlid,
                    now,
                ));
                lemma_album_field_update_wf(m0, cat@, ai as int);
            }
            Some(ai)
        },
    }
}

/// Updating one album row without touching its key or external id keeps the
/// catalog well-formed, provided nothing else moved.
pub proof fn lemma_album_field_update_wf(m0: CatalogModel, m1: CatalogModel, ai: int)
    requires
        m0.wf(),
        0 <= ai < m0.albums.len(),
        m1.albums.len() == m0.albums.len(),
        forall|j: int| 0 <= j < m0.albums.len() && j != ai ==> m1.albums[j] == #[trigger] m0.albums[j],
        m1.albums[ai].id == m0.albums[ai].id,
        m1.albums[ai].spotify_id == m0.albums[ai].spotify_id,
        m1.artists == m0.artists,
        m1.tracks == m0.tracks,
        m1.playlists == m0.playlists,
        m1.entries == m0.entries,
    ensures
        m1.wf(),
{
    assert forall|i: int, j: int|
        0 <= i < j < m1.albums.len() && m1.albums[i].spotify_id is Some implies opt_sv(
        #[trigger] m1.albums[i].spotify_id,
    ) != opt_sv(#[trigger] m1.albums[j].spotify_id) by {
        assert(opt_sv(m1.albums[i].spotify_id) == opt_sv(m0.albums[i].spotify_id));
        assert(opt_sv(m1.albums[j].spotify_id) == opt_sv(m0.albums[j].spotify_id));
    }
    assert forall|i: int| 0 <= i < m1.albums.len() implies (#[trigger] m1.albums[i]).id == i as u64 by {
        assert(m0.albums[i].id == i as u64);
    }
}

/// A "Download" or "AlbumDownload" import for one album: a matched album is
/// flipped to `Owned` with acquisition source set to the download manager and
/// the given local path; its tracking row (matched by the manager's album id)
/// is completed; and every playlist holding one of its tracks gets a fresh
/// owned count. An unmatched name changes nothing.
pub fn handle_download_one(
    cat: &mut Catalog,
    artist_name: &str,
    album_title: &str,
    lidarr_album_id: i32,
    local_path: Option<String>,
    now: u64,
) -> (r: Option<u64>)
    requires
        old(cat).wf(),
        old(cat)@.entries.len() <= i32::MAX,
    ensures
        final(cat).wf(),
        final(cat)@ == spec_handle_download_one(
            old(cat)@,
            artist_name@,
            album_title@,
            lidarr_album_id,
            local_path,
            now,
        ),
        final(cat)@.artists == old(cat)@.artists,
        final(cat)@.tracks == old(cat)@.tracks,
        final(cat)@.entries == old(cat)@.entries,
        match spec_find_album_by_names(old(cat)@, artist_name@, album_title@, 85, 100) {
            Some(ai) => {
                let mid = CatalogModel {
                    albums: old(cat)@.albums.update(
                        ai,
                        Album {
                            ownership_status: OwnershipStatus::Owned,
                            acquisition_source: Some(AcquisitionSource::Lidarr),
                            local_path: local_path,
                            updated_at: now,
                            ..old(cat)@.albums[ai]
                        },
                    ),
                    downloads: spec_complete_download(
                        old(cat)@.downloads,
                        ai as u64,
                        lidarr_album_id,
                        now,
                    ),
                    ..old(cat)@
                };
                &&& r == Some(ai as u64)
                &&& final(cat)@.albums == mid.albums
                &&& final(cat)@.downloads == mid.downloads
                &&& final(cat)@.playlists.len() == old(cat)@.playlists.len()
                // every affected playlist carries the fresh live count
                &&& forall|p: int|
                    0 <= p < old(cat)@.playlists.len() ==> #[trigger] final(cat)@.playlists[p]
                        == (if spec_playlist_affected(mid, p as u64, ai as u64) {
                        crate::model::Playlist {
                            owned_count: Some(spec_owned_count(mid, p as u64) as i32),
                            updated_at: now,
                            ..old(cat)@.playlists[p]
                        }
                    } else {
                        old(cat)@.playlists[p]
                    })
            },
            None => r is None && final(cat)@ == old(cat)@,
        },
{
    let found = find_album_by_title_and_artist(cat, album_title, artist_name, 85, 100);
    match found {
        None => None,
        Some(ai) => {
            let ghost m0 = cat@;
            let i = ai as usize;
            let n = cat.albums.len();
            proof {
                assert(ai < n as u64);
                assert(i as int == ai as int);
            }
            let ghost lp = local_path;
            let row = &mut cat.albums[i];
            row.ownership_status = OwnershipStatus::Owned;
            row.acquisition_source = Some(AcquisitionSource::Lidarr);
            row.local_path = local_path;
            row.updated_at = now;
            proof {
                assert(cat@.albums =~= m0.albums.update(
                    ai as int,
                    Album {
                        ownership_status: OwnershipStatus::Owned,
                        acquisition_source: Some(AcquisitionSource::Lidarr),
                        local_path: lp,
                        updated_at: now,
                        ..m0.albums[ai as int]
                    },
                ));
                lemma_album_field_update_wf(m0, cat@, ai as int);
            }
            complete_download_record(cat, ai, lidarr_album_id, now);
            let ghost mid = cat@;
            update_playlists_for_album(cat, ai, now);
            proof {
                assert(cat@.albums == mid.albums);
                assert(cat@.downloads == mid.downloads);
                assert forall|p: int| 0 <= p < m0.playlists.len() implies #[trigger] cat@.playlists[p]
                    == (if spec_playlist_affected(mid, p as u64, ai) {
                    crate::model::Playlist {
                        owned_count: Some(spec_owned_count(mid, p as u64) as i32),
                        updated_at: now,
                        ..m0.playlists[p]
                    }
                } else {
                    m0.playlists[p]
                }) by {
                    assert(mid.playlists[p] == m0.playlists[p]);
                }
                assert(cat@ == spec_update_playlists_for_album(mid, ai, now));
                assert(mid =~= (CatalogModel {
                    albums: m0.albums.update(
                        ai as int,
                        Album {
                            ownership_status: OwnershipStatus::Owned,
                            acquisition_source: Some(AcquisitionSource::Lidarr),
                            local_path: lp,
                            updated_at: now,
                            ..m0.albums[ai as int]
                        },
                    ),
                    downloads: spec_complete_download(
                        m0.downloads,
                        ai,
                        lidarr_album_id,
                        now,
                    ),
                    ..m0
                }));
                assert(cat@ =~= spec_handle_download_one(
                    m0,
                    artist_name@,
                    album_title@,
                    lidarr_album_id,
                    lp,
                    now,
                ));
            }
            Some(ai)
        },
    }
}

/// A "DownloadFailure" event for one album: a matched album falls back to
/// `NotOwned`, its tracking row is marked failed with the message, and the
/// affected playlists get fresh owned counts. An unmatched name changes
/// nothing.
pub fn handle_download_failure_one(
    cat: &mut Catalog,
    artist_name: &str,
    album_title: &str,
    lidarr_album_id: i32,
    error_message: String,
    now: u64,
) -> (r: Option<u64>)
    requires
        old(cat).wf(),
        old(cat)@.entries.len() <= i32::MAX,
    ensures
        final(cat).wf(),
        final(cat)@ == spec_handle_download_failure_one(
            old(cat)@,
            artist_name@,
            album_title@,
            lidarr_album_id,
            error_message,
            now,
        ),
        final(cat)@.artists == old(cat)@.artists,
        final(cat)@.tracks == old(cat)@.tracks,
        final(cat)@.entries == old(cat)@.entries,
        match spec_find_album_by_names(old(cat)@, artist_name@, album_title@, 85, 100) {
            Some(ai) => {
                let mid = CatalogModel {
                    albums: old(cat)@.albums.update(
                        ai,
                        Album {
                            ownership_status: OwnershipStatus::NotOwned,
                            updated_at: now,
                            ..old(cat)@.albums[ai]
                        },
                    ),
                    downloads: spec_fail_download(
                        old(cat)@.downloads,
                        ai as u64,
                        lidarr_album_id,
                        error_message,
                        now,
                    ),
                    ..old(cat)@
                };
                &&& r == Some(ai as u64)
                &&& final(cat)@.albums == mid.albums
                &&& final(cat)@.downloads == mid.downloads
                &&& final(cat)@.playlists.len() == old(cat)@.playlists.len()
                &&& forall|p: int|
                    0 <= p < old(cat)@.playlists.len() ==> #[trigger] final(cat)@.playlists[p]
                        == (if spec_playlist_affected(mid, p as u64, ai as u64) {
                        crate::model::Playlist {
                            owned_count: Some(spec_owned_count(mid, p as u64) as i32),
                            updated_at: now,
                            ..old(cat)@.playlists[p]
                        }
                    } else {
                        old(cat)@.playlists[p]
                    })
            },
            None => r is None && final(cat)@ == old(cat)@,
        },
{
    let found = find_album_by_title_and_artist(cat, album_title, artist_name, 85, 100);
    match found {
        None => None,
        Some(ai) => {
            let ghost m0 = cat@;
            let i = ai as usize;
            let n = cat.albums.len();
            proof {
                assert(ai < n as u64);
                assert(i as int == ai as int);
            }
            let row = &mut cat.albums[i];
            row.ownership_status = OwnershipStatus::NotOwned;
            row.updated_at = now;
            proof {
                assert(cat@.albums =~= m0.albums.update(
                    ai as int,
                    Album {
                        ownership_status: OwnershipStatus::NotOwned,
                        updated_at: now,
                        ..m0.albums[ai as int]
                    },
                ));
                lemma_album_field_update_wf(m0, cat@, ai as int);
            }
            let ghost msg = error_message;
            fail_download_record(cat, ai, lidarr_album_id, error_message, now);
            let ghost mid = cat@;
            update_playlists_for_album(cat, ai, now);
            proof {
                assert(cat@.albums == mid.albums);
                assert(cat@.downloads == mid.downloads);
                assert forall|p: int| 0 <= p < m0.playlists.len() implies #[trigger] cat@.playlists[p]
                    == (if spec_playlist_affected(mid, p as u64, ai) {
                    crate::model::Playlist {
                        owned_count: Some(spec_owned_count(mid, p as u64) as i32),
                        updated_at: now,
                        ..m0.playlists[p]
                    }
                } else {
                    m0.playlists[p]
                }) by {
                    assert(mid.playlists[p] == m0.playlists[p]);
                }
                assert(cat@ == spec_update_playlists_for_album(mid, ai, now));
                assert(mid =~= (CatalogModel {
                    albums: m0.albums.update(
                        ai as int,
                        Album {
                            ownership_status: OwnershipStatus::NotOwned,
                            updated_at: now,
                            ..m0.albums[ai as int]
                        },
                    ),
                    downloads: spec_fail_download(m0.downloads, ai, lidarr_album_id, msg, now),
                    ..m0
                }));
                assert(cat@ =~= spec_handle_download_failure_one(
                    m0,
                    artist_name@,
                    album_title@,
                    lidarr_album_id,
                    msg,
                    now,
                ));
            }
            Some(ai)
        },
    }
}

/// The tracking rows after completing the first row of the pair: status
/// `Completed` with the completion time.
pub open spec fn spec_complete_download(
    s: Seq<LidarrDownload>,
    album_id: u64,
    lidarr_album_id: i32,
    now: u64,
) -> Seq<LidarrDownload> {
    match spec_find_download(s, album_id, lidarr_album_id, 0) {
        Some(i) => s.update(
            i,
            LidarrDownload {
                status: DownloadStatus::Completed,
                completed_at: Some(now),
                ..s[i]
            },
        ),
        None => s,
    }
}

/// The tracking rows after failing the first row of the pair: status
/// `Failed` with the error text.
pub open spec fn spec_fail_download(
    s: Seq<LidarrDownload>,
    album_id: u64,
    lidarr_album_id: i32,
    error_message: String,
    now: u64,
) -> Seq<LidarrDownload> {
    match spec_find_download(s, album_id, lidarr_album_id, 0) {
        Some(i) => s.update(
            i,
            LidarrDownload {
                status: DownloadStatus::Failed,
                error_message: Some(error_message),
                ..s[i]
            },
        ),
        None => s,
    }
}

/// First tracking row (at or after `i`) joining the catalog album and the
/// download manager's album id.
pub open spec fn spec_find_download(
    s: Seq<LidarrDownload>,
    album_id: u64,
    lidarr_album_id: i32,
    i: int,
) -> Option<int>
    decreases s.len() - i,
{
    if i < 0 || i >= s.len() {
        None
    } else if s[i].album_id == album_id && s[i].lidarr_album_id == Some(lidarr_album_id) {
        Some(i)
    } else {
        spec_find_download(s, album_id, lidarr_album_id, i + 1)
    }
}

/// Mark the album's tracking row (if any) completed.
fn complete_download_record(cat: &mut Catalog, album_id: u64, lidarr_album_id: i32, now: u64)
    requires
        old(cat).wf(),
    ensures
        final(cat).wf(),
        final(cat)@ == (CatalogModel {
            downloads: spec_complete_download(old(cat)@.downloads, album_id, lidarr_album_id, now),
            ..old(cat)@
        }),
{
    let ghost m0 = cat@;
    let n = cat.downloads.len();
    for i in 0..n
        invariant
            n == cat@.downloads.len(),
            cat@ == m0,
            m0 == old(cat)@,
            m0.wf(),
            spec_find_download(m0.downloads, album_id, lidarr_album_id, 0) == spec_find_download(
                m0.downloads,
                album_id,
                lidarr_album_id,
                i as int,
            ),
    {
        if cat.downloads[i].album_id == album_id && match cat.downloads[i].lidarr_album_id {
            Some(l) => l == lidarr_album_id,
            None => false,
        } {
            let row = &mut cat.downloads[i];
            row.status = DownloadStatus::Completed;
            row.completed_at = Some(now);
            proof {
                assert(cat@.downloads =~= spec_complete_download(
                    m0.downloads,
                    album_id,
                    lidarr_album_id,
                    now,
                ));
                assert(cat@ =~= (CatalogModel {
                    downloads: spec_complete_download(m0.downloads, album_id, lidarr_album_id, now),
                    ..m0
                }));
                assert(cat@.artists == m0.artists);
                assert(cat@.albums == m0.albums);
                assert(cat@.tracks == m0.tracks);
                assert(cat@.playlists == m0.playlists);
                assert(cat@.entries == m0.entries);
                assert(m0.wf());
                assert(cat.wf());
            }
            return ;
        }
        proof {
            assert(spec_find_download(m0.downloads, album_id, lidarr_album_id, i as int)
                == spec_find_download(m0.downloads, album_id, lidarr_album_id, i + 1));
        }
    }
    proof {
        assert(cat@ =~= (CatalogModel {
            downloads: spec_complete_download(m0.downloads, album_id, lidarr_album_id, now),
            ..m0
        }));
    }
}

/// Mark the album's tracking row (if any) failed with the error text.
fn fail_download_record(
    cat: &mut Catalog,
    album_id: u64,
    lidarr_album_id: i32,
    error_message: String,
    now: u64,
)
    requires
        old(cat).wf(),
    ensures
        final(cat).wf(),
        final(cat)@ == (CatalogModel {
            downloads: spec_fail_download(
                old(cat)@.downloads,
                album_id,
                lidarr_album_id,
                error_message,
                now,
            ),
            ..old(cat)@
        }),
{
    let ghost m0 = cat@;
    let n = cat.downloads.len();
    for i in 0..n
        invariant
            n == cat@.downloads.len(),
            cat@ == m0,
            m0 == old(cat)@,
            m0.wf(),
            spec_find_download(m0.downloads, album_id, lidarr_album_id, 0) == spec_find_download(
                m0.downloads,
                album_id,
                lidarr_album_id,
                i as int,
            ),
    {
        if cat.downloads[i].album_id == album_id && match cat.downloads[i].lidarr_album_id {
            Some(l) => l == lidarr_album_id,
            None => false,
        } {
            let msg_taken = error_message.clone();
            let row = &mut cat.downloads[i];
            row.status = DownloadStatus::Failed;
            row.error_message = Some(msg_taken);
            proof {
                assert(cat@.downloads[i as int].error_message == Some(error_message));
                assert(cat@.downloads =~= spec_fail_download(
                    m0.downloads,
                    album_id,
                    lidarr_album_id,
                    error_message,
                    now,
                ));
                assert(cat@ =~= (CatalogModel {
                    downloads: spec_fail_download(
                        m0.downloads,
                        album_id,
                        lidarr_album_id,
                        error_message,
                        now,
                    ),
                    ..m0
                }));
                assert(cat@.artists == m0.artists);
                assert(cat@.albums == m0.albums);
                assert(cat@.tracks == m0.tracks);
                assert(cat@.playlists == m0.playlists);
                assert(cat@.entries == m0.entries);
                assert(m0.wf());
                assert(cat.wf());
            }
            return ;
        }
        proof {
            assert(spec_find_download(m0.downloads, album_id, lidarr_album_id, i as int)
                == spec_find_download(m0.downloads, album_id, lidarr_album_id, i + 1));
        }
    }
    proof {
        assert(cat@ =~= (CatalogModel {
            downloads: spec_fail_download(
                m0.downloads,
                album_id,
                lidarr_album_id,
                error_message,
                now,
            ),
            ..m0
        }));
    }
}

/// The directory containing a file: the text before the last `/`, if any.
pub open spec fn spec_parent_dir_at(s: Seq<char>, i: int) -> Option<Seq<char>>
    decreases i + 1,
{
    if i < 0 || i >= s.len() {
        None
    } else if s[i] == '/' {
        Some(s.subrange(0, i))
    } else {
        spec_parent_dir_at(s, i - 1)
    }
}

/// The directory part of a file path.
pub open spec fn spec_parent_dir(s: Seq<char>) -> Option<Seq<char>> {
    spec_parent_dir_at(s, s.len() - 1)
}

/// Directory containing the file at `path`: everything before the final `/`.
pub fn parent_dir(path: &str) -> (r: Option<String>)
    ensures
        match r {
            Some(p) => spec_parent_dir(path@) == Some(p@),
            None => spec_parent_dir(path@) is None,
        },
{
    let n = path.unicode_len();
    let mut i: usize = n;
    while i > 0
        invariant
            i <= n,
            n == path@.len(),
            spec_parent_dir(path@) == spec_parent_dir_at(path@, i - 1),
        decreases i,
    {
        let c = path.get_char(i - 1);
        if c == '/' {
            let prefix = path.substring_char(0, i - 1);
            return Some(prefix.to_owned());
        }
        proof {
            assert(spec_parent_dir_at(path@, i - 1) == spec_parent_dir_at(path@, i - 2));
        }
        i = i - 1;
    }
    None
}

/// The local path an import event records: the directory of the first
/// imported file, where any was reported.
pub open spec fn spec_download_local_path(track_files: Seq<TrackFile>) -> Option<Seq<char>> {
    if track_files.len() > 0 {
        spec_parent_dir(track_files[0].path@)
    } else {
        None
    }
}

/// Model of a whole "Grab" payload: one grab per listed album, in order,
/// sharing the payload's download id.
pub open spec fn spec_webhook_grab(
    m: CatalogModel,
    artist_name: Seq<char>,
    albums: Seq<LidarrAlbum>,
    download_id: String,
    now: u64,
) -> CatalogModel
    decreases albums.len(),
{
    if albums.len() == 0 {
        m
    } else {
        spec_webhook_grab(
            spec_handle_grab_one(m, artist_name, albums[0].title@, albums[0].id, download_id, now),
            artist_name,
            albums.drop_first(),
            download_id,
            now,
        )
    }
}

/// Model of a whole "Download" payload: one import per listed album, in
/// order, all at the same local path.
pub open spec fn spec_webhook_download(
    m: CatalogModel,
    artist_name: Seq<char>,
    albums: Seq<LidarrAlbum>,
    local_path: Option<String>,
    now: u64,
) -> CatalogModel
    decreases albums.len(),
{
    if albums.len() == 0 {
        m
    } else {
        spec_webhook_download(
            spec_handle_download_one(
                m,
                artist_name,
                albums[0].title@,
                albums[0].id,
                local_path,
                now,
            ),
            artist_name,
            albums.drop_first(),
            local_path,
            now,
        )
    }
}

/// Model of a whole "DownloadFailure" payload: one failure per listed album,
/// in order, all with the payload's message.
pub open spec fn spec_webhook_failure(
    m: CatalogModel,
    artist_name: Seq<char>,
    albums: Seq<LidarrAlbum>,
    message: String,
    now: u64,
) -> CatalogModel
    decreases albums.len(),
{
    if albums.len() == 0 {
        m
    } else {
        spec_webhook_failure(
            spec_handle_download_failure_one(
                m,
                artist_name,
                albums[0].title@,
                albums[0].id,
                message,
                now,
            ),
            artist_name,
            albums.drop_first(),
            message,
            now,
        )
    }
}

/// Dispatch one webhook payload: grabs flip matched albums to `Downloading`,
/// imports flip them to `Owned` (recording the directory of the first
/// imported file as the local path) and recompute the affected playlists, and
/// failures flip them back to `NotOwned` — per listed album, exactly as the
/// single-event models say. Memberships and tracks never move.
pub fn webhook(cat: &mut Catalog, payload: LidarrWebhook, now: u64)
    requires
        old(cat).wf(),
        old(cat)@.entries.len() <= i32::MAX,
        match payload {
            LidarrWebhook::Grab { albums, .. } => old(cat)@.next_download_id + albums@.len()
                <= u64::MAX,
            _ => true,
        },
    ensures
        final(cat).wf(),
        final(cat)@.artists == old(cat)@.artists,
        final(cat)@.tracks == old(cat)@.tracks,
        final(cat)@.entries == old(cat)@.entries,
        match payload {
            LidarrWebhook::Grab { artist, albums, download_id } => final(cat)@
                == spec_webhook_grab(old(cat)@, artist.artist_name@, albums@, download_id, now),
            LidarrWebhook::Download { artist, albums, track_files, .. } => exists|
                lp: Option<String>,
            |
                #[trigger] opt_sv(lp) == spec_download_local_path(track_files@) && final(cat)@
                    == spec_webhook_download(old(cat)@, artist.artist_name@, albums@, lp, now),
            LidarrWebhook::AlbumDownload { artist, album } => final(cat)@
                == spec_handle_download_one(
                old(cat)@,
                artist.artist_name@,
                album.title@,
                album.id,
                None,
                now,
            ),
            LidarrWebhook::DownloadFailure { artist, albums, message } => final(cat)@
                == spec_webhook_failure(old(cat)@, artist.artist_name@, albums@, message, now),
        },
{
    let ghost m0 = old(cat)@;
    match payload {
        LidarrWebhook::Grab { artist, albums, download_id } => {
            let ghost orig = albums@;
            let mut albums = albums;
            while albums.len() > 0
                invariant
                    cat.wf(),
                    cat@.artists == old(cat)@.artists,
                    cat@.tracks == old(cat)@.tracks,
                    cat@.entries == old(cat)@.entries,
                    cat@.next_download_id + albums@.len() <= u64::MAX,
                    spec_webhook_grab(m0, artist.artist_name@, orig, download_id, now)
                        == spec_webhook_grab(
                        cat@,
                        artist.artist_name@,
                        albums@,
                        download_id,
                        now,
                    ),
                decreases albums@.len(),
            {
                let ghost rem = albums@;
                let ghost pre = cat@;
                let album = albums.remove(0);
                proof {
                    assert(album == rem[0]);
                    assert(albums@ =~= rem.drop_first());
                }
                handle_grab_one(
                    cat,
                    artist.artist_name.as_str(),
                    album.title.as_str(),
                    album.id,
                    download_id.clone(),
                    now,
                );
                proof {
                    assert(cat@ == spec_handle_grab_one(
                        pre,
                        artist.artist_name@,
                        rem[0].title@,
                        rem[0].id,
                        download_id,
                        now,
                    ));
                    assert(spec_webhook_grab(pre, artist.artist_name@, rem, download_id, now)
                        == spec_webhook_grab(cat@, artist.artist_name@, albums@, download_id, now));
                }
            }
            proof {
                assert(spec_webhook_grab(cat@, artist.artist_name@, albums@, download_id, now)
                    == cat@);
            }
        },
        LidarrWebhook::Download { artist, albums, track_files, is_upgrade: _ } => {
            let local_path = if track_files.len() > 0 {
                parent_dir(track_files[0].path.as_str())
            } else {
                None
            };
            let ghost lp = local_path;
            proof {
                assert(opt_sv(lp) == spec_download_local_path(track_files@));
            }
            let ghost orig = albums@;
            let mut albums = albums;
            while albums.len() > 0
                invariant
                    cat.wf(),
                    cat@.artists == old(cat)@.artists,
                    cat@.tracks == old(cat)@.tracks,
                    cat@.entries == old(cat)@.entries,
                    cat@.entries.len() <= i32::MAX,
                    local_path == lp,
                    spec_webhook_download(m0, artist.artist_name@, orig, lp, now)
                        == spec_webhook_download(cat@, artist.artist_name@, albums@, lp, now),
                decreases albums@.len(),
            {
                let ghost rem = albums@;
                let ghost pre = cat@;
                let album = albums.remove(0);
                proof {
                    assert(album == rem[0]);
                    assert(albums@ =~= rem.drop_first());
                }
                handle_download_one(
                    cat,
                    artist.artist_name.as_str(),
                    album.title.as_str(),
                    album.id,
                    crate::catalog::clone_opt_string(&local_path),
                    now,
                );
                proof {
                    assert(cat@ == spec_handle_download_one(
                        pre,
                        artist.artist_name@,
                        rem[0].title@,
                        rem[0].id,
                        lp,
                        now,
                    ));
                    assert(spec_webhook_download(pre, artist.artist_name@, rem, lp, now)
                        == spec_webhook_download(cat@, artist.artist_name@, albums@, lp, now));
                }
            }
            proof {
                assert(spec_webhook_download(cat@, artist.artist_name@, albums@, lp, now) == cat@);
                assert(opt_sv(lp) == spec_download_local_path(track_files@) && cat@
                    == spec_webhook_download(m0, artist.artist_name@, orig, lp, now));
            }
        },
        LidarrWebhook::AlbumDownload { artist, album } => {
            handle_download_one(
                cat,
                artist.artist_name.as_str(),
                album.title.as_str(),
                album.id,
                None,
                now,
            );
        },
        LidarrWebhook::DownloadFailure { artist, albums, message } => {
            let ghost orig = albums@;
            let mut albums = albums;
            while albums.len() > 0
                invariant
                    cat.wf(),
                    cat@.artists == old(cat)@.artists,
                    cat@.tracks == old(cat)@.tracks,
                    cat@.entries == old(cat)@.entries,
                    cat@.entries.len() <= i32::MAX,
                    spec_webhook_failure(m0, artist.artist_name@, orig, message, now)
                        == spec_webhook_failure(cat@, artist.artist_name@, albums@, message, now),
                decreases albums@.len(),
            {
                let ghost rem = albums@;
                let ghost pre = cat@;
                let album = albums.remove(0);
                proof {
                    assert(album == rem[0]);
                    assert(albums@ =~= rem.drop_first());
                }
                handle_download_failure_one(
                    cat,
                    artist.artist_name.as_str(),
                    album.title.as_str(),
                    album.id,
                    message.clone(),
                    now,
                );
                proof {
                    assert(cat@ == spec_handle_download_failure_one(
                        pre,
                        artist.artist_name@,
                        rem[0].title@,
                        rem[0].id,
                        message,
                        now,
                    ));
                    assert(spec_webhook_failure(pre, artist.artist_name@, rem, message, now)
                        == spec_webhook_failure(cat@, artist.artist_name@, albums@, message, now));
                }
            }
            proof {
                assert(spec_webhook_failure(cat@, artist.artist_name@, albums@, message, now)
                    == cat@);
            }
        },
    }
}

} // verus!
