//! Acquisition reconciliation, path two: filesystem scan. The runtime walks
//! the configured `<artist>/<album>` tree and hands in, per album folder, the
//! folder names, the media-file count and the path; the library decides which
//! folders are albums (at least three media files), fuzzy-matches them
//! against the catalog and flips matched albums to `Owned`.

use vstd::prelude::*;

use crate::catalog::{Catalog, CatalogModel};
use crate::enums::{AcquisitionSource, OwnershipStatus};
use crate::fuzzy::{lower_of, lowercase};
use crate::lidarr::{lemma_album_field_update_wf, spec_find_album_by_names};
use crate::model::Album;
use crate::stats::{
    spec_owned_count, spec_playlist_affected, spec_update_playlists_for_album,
    update_playlists_for_album,
};

verus! {

/// One album folder found on disk.
#[derive(Debug)]
pub struct ScannedFolder {
    pub artist_name: String,
    pub album_name: String,
    pub audio_file_count: usize,
    pub path: String,
}

/// The media-file extensions that count towards an album folder.
pub open spec fn spec_is_audio_extension(ext: Seq<char>) -> bool {
    ||| lower_of(ext) == "mp3"@
    ||| lower_of(ext) == "flac"@
    ||| lower_of(ext) == "m4a"@
    ||| lower_of(ext) == "ogg"@
    ||| lower_of(ext) == "opus"@
    ||| lower_of(ext) == "wav"@
    ||| lower_of(ext) == "aac"@
}

/// Whether a file extension names an audio format, case-insensitively.
pub fn is_audio_extension(ext: &str) -> (r: bool)
    ensures
        r == spec_is_audio_extension(ext@),
{
    let low = lowercase(ext);
    let s = low.as_str();
    crate::enums::str_eq(s, "mp3") || crate::enums::str_eq(s, "flac") || crate::enums::str_eq(
        s,
        "m4a",
    ) || crate::enums::str_eq(s, "ogg") || crate::enums::str_eq(s, "opus")
        || crate::enums::str_eq(s, "wav") || crate::enums::str_eq(s, "aac")
}

/// Audio files among the extensions from `i` on.
pub open spec fn audio_count_from(exts: Seq<Seq<char>>, i: int) -> int
    decreases exts.len() - i,
{
    if i < 0 || i >= exts.len() {
        0
    } else {
        (if spec_is_audio_extension(exts[i]) {
            1int
        } else {
            0int
        }) + audio_count_from(exts, i + 1)
    }
}

/// Count the audio files in a directory, given the extension of each file.
pub fn count_audio_files(extensions: &Vec<String>) -> (r: usize)
    ensures
        r == audio_count_from(extensions.deep_view(), 0),
        r <= extensions@.len(),
{
    let n = extensions.len();
    let mut count: usize = 0;
    proof {
        lemma_audio_count_bounded(extensions.deep_view(), 0);
    }
    for i in 0..n
        invariant
            n == extensions@.len(),
            extensions.deep_view().len() == n,
            count + audio_count_from(extensions.deep_view(), i as int) == audio_count_from(
                extensions.deep_view(),
                0,
            ),
            count <= i,
    {
        proof {
            assert(extensions.deep_view()[i as int] == extensions@[i as int]@);
            lemma_audio_count_bounded(extensions.deep_view(), i + 1);
        }
        if is_audio_extension(extensions[i].as_str()) {
            count = count + 1;
        }
    }
    count
}

/// The audio count is bounded by the number of files.
proof fn lemma_audio_count_bounded(exts: Seq<Seq<char>>, i: int)
    requires
        0 <= i <= exts.len(),
    ensures
        0 <= audio_count_from(exts, i) <= exts.len() - i,
    decreases exts.len() - i,
{
    if i < exts.len() {
        lemma_audio_count_bounded(exts, i + 1);
    }
}

/// A folder is accepted as an album when it holds at least three media files.
pub open spec fn spec_is_valid_album_folder(audio_count: int) -> bool {
    audio_count >= 3
}

/// Model of matching one folder: on a fuzzy match (threshold 0.8) the album
/// row is flipped to `Owned` at the folder's path (acquisition source
/// defaulted to `Unknown` where none was recorded) and the affected
/// playlists' counts are refreshed; no match changes nothing.
pub open spec fn spec_match_and_update(
    m: CatalogModel,
    artist_name: Seq<char>,
    album_title: Seq<char>,
    local_path: String,
    now: u64,
) -> CatalogModel {
    match spec_find_album_by_names(m, artist_name, album_title, 80, 100) {
        Some(ai) => {
            let mid = CatalogModel {
                albums: m.albums.update(
                    ai,
                    Album {
                        ownership_status: OwnershipStatus::Owned,
                        acquisition_source: match m.albums[ai].acquisition_source {
                            Some(s) => Some(s),
                            None => Some(AcquisitionSource::Unknown),
                        },
                        local_path: Some(local_path),
                        updated_at: now,
                        ..m.albums[ai]
                    },
                ),
                ..m
            };
            spec_update_playlists_for_album(mid, ai as u64, now)
        },
        None => m,
    }
}

/// Match one found folder against the catalog (fuzzy, threshold 0.8) and, on
/// a match, flip the album to `Owned` at the folder's path, defaulting the
/// acquisition source to `Unknown` where none was recorded, then refresh the
/// affected playlists' counts. No match changes nothing.
pub fn match_and_update_album(
    cat: &mut Catalog,
    artist_name: &str,
    album_title: &str,
    local_path: String,
    now: u64,
) -> (r: Option<u64>)
    requires
        old(cat).wf(),
        old(cat)@.entries.len() <= i32::MAX,
    ensures
        final(cat).wf(),
        final(cat)@ == spec_match_and_update(old(cat)@, artist_name@, album_title@, local_path, now),
        final(cat)@.artists == old(cat)@.artists,
        final(cat)@.tracks == old(cat)@.tracks,
        final(cat)@.entries == old(cat)@.entries,
        final(cat)@.downloads == old(cat)@.downloads,
        match spec_find_album_by_names(old(cat)@, artist_name@, album_title@, 80, 100) {
            Some(ai) => {
                let mid = CatalogModel {
                    albums: old(cat)@.albums.update(
                        ai,
                        Album {
                            ownership_status: OwnershipStatus::Owned,
                            acquisition_source: match old(
                                cat,
                            )@.albums[ai].acquisition_source {
                                Some(s) => Some(s),
                                None => Some(AcquisitionSource::Unknown),
                            },
                            local_path: Some(local_path),
                            updated_at: now,
                            ..old(cat)@.albums[ai]
                        },
                    ),
                    ..old(cat)@
                };
                &&& r == Some(ai as u64)
                &&& final(cat)@.albums == mid.albums
                &&& final(cat)@.playlists.len() == old(cat)@.playlists.len()
                &&& forall|p: int|
                    0 <= p < old(cat)@.playlists.len() ==> #[trigger] final(cat)@.playlists[p]
                        == (if spec_playlist_affected(mid, p as u64, ai as u64) {
                        crate::model::Playlist {
                            owned_count: Some(spec_owned_count(mid, p as u64) as i32),
                            updated_at: now,
                            ..old(cat)@.playlists[p]
                        }
                    } else {
                        old(cat)@.playlists[p]
                    })
            },
            None => r is None && final(cat)@ == old(cat)@,
        },
{
    let found = crate::lidarr::find_album_by_title_and_artist(
        cat,
        album_title,
        artist_name,
        80,
        100,
    );
    match found {
        None => None,
        Some(ai) => {
            let ghost m0 = cat@;
            let i = ai as usize;
            let n = cat.albums.len();
            proof {
                assert(ai < n as u64);
                assert(i as int == ai as int);
            }
            let has_source = match cat.albums[i].acquisition_source {
                Some(_) => true,
                None => false,
            };
            let ghost lp = local_path;
            let row = &mut cat.albums[i];
            row.ownership_status = OwnershipStatus::Owned;
            if !has_source {
                row.acquisition_source = Some(AcquisitionSource::Unknown);
            }
            row.local_path = Some(local_path);
            row.updated_at = now;
            proof {
                assert(cat@.albums =~= m0.albums.update(
                    ai as int,
                    Album {
                        ownership_status: OwnershipStatus::Owned,
                        acquisition_source: match m0.albums[ai as int].acquisition_source {
                            Some(s) => Some(s),
                            None => Some(AcquisitionSource::Unknown),
                        },
                        local_path: cat@.albums[ai as int].local_path,
                        updated_at: now,
                        ..m0.albums[ai as int]
                    },
                ));
                lemma_album_field_update_wf(m0, cat@, ai as int);
            }
            let ghost mid = cat@;
            update_playlists_for_album(cat, ai, now);
            proof {
                assert(cat@.albums == mid.albums);
                assert(cat@.downloads == mid.downloads);
                assert forall|p: int| 0 <= p < m0.playlists.len() implies #[trigger] cat@.playlists[p]
                    == (if spec_playlist_affected(mid, p as u64, ai) {
                    crate::model::Playlist {
                        owned_count: Some(spec_owned_count(mid, p as u64) as i32),
                        updated_at: now,
                        ..m0.playlists[p]
                    }
                } else {
                    m0.playlists[p]
                }) by {
                    assert(mid.playlists[p] == m0.playlists[p]);
                }
                assert(mid =~= (CatalogModel {
                    albums: m0.albums.update(
                        ai as int,
                        Album {
                            ownership_status: OwnershipStatus::Owned,
                            acquisition_source: match m0.albums[ai as int].acquisition_source {
                                Some(s) => Some(s),
                                None => Some(AcquisitionSource::Unknown),
                            },
                            local_path: cat@.albums[ai as int].local_path,
                            updated_at: now,
                            ..m0.albums[ai as int]
                        },
                    ),
                    ..m0
                }));
                assert(cat@ =~= spec_match_and_update(m0, artist_name@, album_title@, lp, now));
            }
            Some(ai)
        },
    }
}

/// Model of one whole scan: the folders in walk order, each accepted exactly
/// when it holds at least three media files, each accepted one matched and
/// flipped as [`spec_match_and_update`] says.
pub open spec fn spec_run_scan(m: CatalogModel, folders: Seq<ScannedFolder>, now: u64) -> CatalogModel
    decreases folders.len(),
{
    if folders.len() == 0 {
        m
    } else {
        let m1 = if spec_is_valid_album_folder(folders[0].audio_file_count as int) {
            spec_match_and_update(
                m,
                folders[0].artist_name@,
                folders[0].album_name@,
                folders[0].path,
                now,
            )
        } else {
            m
        };
        spec_run_scan(m1, folders.drop_first(), now)
    }
}

/// Run one filesystem-scan job over the folders the runtime walked: folders
/// with at least three media files are matched against the catalog and
/// flipped to `Owned`. Memberships, tracks, artists and download rows never
/// move.
pub fn run_filesystem_scan(cat: &mut Catalog, folders: Vec<ScannedFolder>, now: u64)
    requires
        old(cat).wf(),
        old(cat)@.entries.len() <= i32::MAX,
    ensures
        final(cat).wf(),
        final(cat)@ == spec_run_scan(old(cat)@, folders@, now),
        final(cat)@.artists == old(cat)@.artists,
        final(cat)@.tracks == old(cat)@.tracks,
        final(cat)@.entries == old(cat)@.entries,
        final(cat)@.downloads == old(cat)@.downloads,
{
    let ghost orig = folders@;
    let ghost m0 = old(cat)@;
    let mut folders = folders;
    while folders.len() > 0
        invariant
            cat.wf(),
            cat@.artists == old(cat)@.artists,
            cat@.tracks == old(cat)@.tracks,
            cat@.entries == old(cat)@.entries,
            cat@.downloads == old(cat)@.downloads,
            cat@.entries.len() <= i32::MAX,
            spec_run_scan(m0, orig, now) == spec_run_scan(cat@, folders@, now),
        decreases folders@.len(),
    {
        let ghost pre = cat@;
        let ghost rem = folders@;
        let folder = folders.remove(0);
        proof {
            assert(folder == rem[0]);
            assert(folders@ =~= rem.drop_first());
        }
        if folder.audio_file_count >= 3 {
            let ghost fp = folder.path;
            match_and_update_album(
                cat,
                folder.artist_name.as_str(),
                folder.album_name.as_str(),
                folder.path,
                now,
            );
            proof {
                assert(cat@ == spec_match_and_update(
                    pre,
                    rem[0].artist_name@,
                    rem[0].album_name@,
                    rem[0].path,
                    now,
                ));
                assert(spec_run_scan(pre, rem, now) == spec_run_scan(cat@, rem.drop_first(), now));
            }
        } else {
            proof {
                assert(!spec_is_valid_album_folder(rem[0].audio_file_count as int));
                assert(spec_run_scan(pre, rem, now) == spec_run_scan(cat@, rem.drop_first(), now));
            }
        }
    }
    proof {
        assert(folders@.len() == 0);
        assert(spec_run_scan(cat@, folders@, now) == cat@);
    }
}

} // verus!
