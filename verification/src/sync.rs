//! The Library Sync task: idempotent upsert reconciliation of artists,
//! albums, tracks, playlists and playlist memberships against freshly fetched
//! streaming-service data. Each operation is mirrored by a spec-level model
//! over [`CatalogModel`], and the idempotence and reconciliation laws are
//! proved over those models.

use vstd::prelude::*;

use crate::catalog::{
    clone_opt_string, contains_u64, lemma_find_album_none, lemma_find_album_push,
    lemma_find_artist_none, lemma_find_artist_push, lemma_find_entry_none, lemma_find_entry_some,
    lemma_find_playlist_none, lemma_find_track_none, lemma_find_track_push, opt_sv,
    spec_find_album, spec_find_artist, spec_find_entry, spec_find_playlist, spec_find_track,
    Catalog, CatalogModel,
};
use crate::dates::{parse_release_date, spec_parse_release_date};
use crate::hashing::{joined_bytes, sha256_digest, sha256_of, spec_joined_ids, spec_to_hex_lower, to_hex_lower};
use crate::strings::{sort_strings, spec_sort_seqs};
use crate::enums::{str_eq, AlbumSource, MatchStatus, OwnershipStatus};
use crate::model::{Album, Artist, Playlist, PlaylistEntry, Track};
use crate::spotify::{SpotifyAlbum, SpotifyArtist, SpotifyPlaylist, SpotifyPlaylistTrack, SpotifyTrack};

verus! {

/// The artist row created for a first reference to `sa`.
pub open spec fn spec_new_artist(id: u64, sa: SpotifyArtist, now: u64) -> Artist {
    Artist {
        id,
        name: sa.name,
        spotify_id: Some(sa.id),
        musicbrainz_id: None,
        created_at: now,
        updated_at: now,
    }
}

/// Model of the artist upsert: find by external id; keep the row as it is
/// when present, else append a fresh row. Returns the model and the row key.
pub open spec fn spec_upsert_artist(m: CatalogModel, sa: SpotifyArtist, now: u64) -> (
    CatalogModel,
    u64,
) {
    match spec_find_artist(m.artists, sa.id@) {
        Some(i) => (m, m.artists[i].id),
        None => (
            CatalogModel {
                artists: m.artists.push(spec_new_artist(m.artists.len() as u64, sa, now)),
                ..m
            },
            m.artists.len() as u64,
        ),
    }
}

/// The album row created for a first reference, with ownership `NotOwned` and
/// match state `Pending`.
pub open spec fn spec_new_album(
    id: u64,
    artist_id: u64,
    ab: SpotifyAlbum,
    source: AlbumSource,
    now: u64,
) -> Album {
    Album {
        id,
        artist_id,
        title: ab.name,
        spotify_id: Some(ab.id),
        musicbrainz_release_group_id: None,
        release_date: spec_parse_release_date(ab.release_date@),
        total_tracks: Some(ab.total_tracks),
        cover_art_url: if ab.images.len() > 0 {
            Some(ab.images[0].url)
        } else {
            None
        },
        genres: ab.genres,
        ownership_status: OwnershipStatus::NotOwned,
        acquisition_source: None,
        local_path: None,
        match_score: None,
        match_status: MatchStatus::Pending,
        source,
        created_at: now,
        updated_at: now,
        last_synced_at: Some(now),
    }
}

/// Model of the album upsert, as [`spec_upsert_artist`] for albums.
pub open spec fn spec_upsert_album(
    m: CatalogModel,
    ab: SpotifyAlbum,
    artist_id: u64,
    source: AlbumSource,
    now: u64,
) -> (CatalogModel, u64) {
    match spec_find_album(m.albums, ab.id@) {
        Some(i) => (m, m.albums[i].id),
        None => (
            CatalogModel {
                albums: m.albums.push(
                    spec_new_album(m.albums.len() as u64, artist_id, ab, source, now),
                ),
                ..m
            },
            m.albums.len() as u64,
        ),
    }
}

/// Upsert an artist by its external id: an existing row is kept untouched
/// (its key is returned), a missing one is appended.
pub fn upsert_artist(cat: &mut Catalog, sa: &SpotifyArtist, now: u64) -> (r: u64)
    requires
        old(cat).wf(),
        old(cat)@.artists.len() < u64::MAX,
    ensures
        final(cat).wf(),
        final(cat)@ == spec_upsert_artist(old(cat)@, *sa, now).0,
        r == spec_upsert_artist(old(cat)@, *sa, now).1,
        r < final(cat)@.artists.len(),
        opt_sv(final(cat)@.artists[r as int].spotify_id) == Some(sa.id@),
{
    match cat.find_artist_by_spotify_id(sa.id.as_str()) {
        Some(i) => {
            assert(cat@.artists[i as int].id == i as u64);
            i as u64
        },
        None => {
            let id: u64 = cat.artists.len() as u64;
            let artist = Artist {
                id,
                name: sa.name.clone(),
                spotify_id: Some(sa.id.clone()),
                musicbrainz_id: None,
                created_at: now,
                updated_at: now,
            };
            proof {
                lemma_find_artist_none(cat@.artists, sa.id@, 0);
            }
            let ghost m0 = cat@;
            cat.artists.push(artist);
            proof {
                assert(artist == spec_new_artist(m0.artists.len() as u64, *sa, now));
                assert(cat@.artists =~= m0.artists.push(artist));
                assert(cat@ =~= spec_upsert_artist(m0, *sa, now).0);
                assert forall|i: int, j: int|
                    0 <= i < j < cat@.artists.len() && cat@.artists[i].spotify_id is Some
                        implies opt_sv(#[trigger] cat@.artists[i].spotify_id) != opt_sv(
                    #[trigger] cat@.artists[j].spotify_id,
                ) by {
                    if j < m0.artists.len() {
                        assert(m0.wf());
                    } else {
                        assert(opt_sv(m0.artists[i].spotify_id) != Some(sa.id@));
                    }
                }
            }
            id
        },
    }
}

/// Upsert an album by its external id, consuming the fetched album: an
/// existing row is kept untouched, a missing one is appended with ownership
/// `NotOwned`, match state `Pending` and the given provenance.
pub fn upsert_album(
    cat: &mut Catalog,
    ab: SpotifyAlbum,
    artist_id: u64,
    source: AlbumSource,
    now: u64,
) -> (r: u64)
    requires
        old(cat).wf(),
        old(cat)@.albums.len() < u64::MAX,
    ensures
        final(cat).wf(),
        final(cat)@ == spec_upsert_album(old(cat)@, ab, artist_id, source, now).0,
        r == spec_upsert_album(old(cat)@, ab, artist_id, source, now).1,
        r < final(cat)@.albums.len(),
        opt_sv(final(cat)@.albums[r as int].spotify_id) == Some(ab.id@),
{
    match cat.find_album_by_spotify_id(ab.id.as_str()) {
        Some(i) => {
            assert(cat@.albums[i as int].id == i as u64);
            i as u64
        },
        None => {
            let id: u64 = cat.albums.len() as u64;
            let release_date = parse_release_date(ab.release_date.as_str());
            let SpotifyAlbum { id: sid, name, artists: _, release_date: _, total_tracks, images, genres } =
                ab;
            let mut images = images;
            let cover_art_url = if images.len() > 0 {
                let first = images.remove(0);
                Some(first.url)
            } else {
                None
            };
            let album = Album {
                id,
                artist_id,
                title: name,
                spotify_id: Some(sid),
                musicbrainz_release_group_id: None,
                release_date,
                total_tracks: Some(total_tracks),
                cover_art_url,
                genres,
                ownership_status: OwnershipStatus::NotOwned,
                acquisition_source: None,
                local_path: None,
                match_score: None,
                match_status: MatchStatus::Pending,
                source,
                created_at: now,
                updated_at: now,
                last_synced_at: Some(now),
            };
            proof {
                lemma_find_album_none(cat@.albums, ab.id@, 0);
            }
            let ghost m0 = cat@;
            cat.albums.push(album);
            proof {
                assert(album == spec_new_album(m0.albums.len() as u64, artist_id, ab, source, now));
                assert(cat@.albums =~= m0.albums.push(album));
                assert(cat@ =~= spec_upsert_album(m0, ab, artist_id, source, now).0);
                assert forall|i: int, j: int|
                    0 <= i < j < cat@.albums.len() && cat@.albums[i].spotify_id is Some
                        implies opt_sv(#[trigger] cat@.albums[i].spotify_id) != opt_sv(
                    #[trigger] cat@.albums[j].spotify_id,
                ) by {
                    if j < m0.albums.len() {
                        assert(m0.wf());
                    } else {
                        assert(opt_sv(m0.albums[i].spotify_id) != Some(ab.id@));
                    }
                }
            }
            id
        },
    }
}

/// The track row created for a first reference.
pub open spec fn spec_new_track(
    id: u64,
    album_id: u64,
    sid: String,
    title: String,
    track_number: i32,
    disc_number: i32,
    duration_ms: i32,
    now: u64,
) -> Track {
    Track {
        id,
        album_id,
        title,
        track_number: Some(track_number),
        disc_number: Some(disc_number),
        duration_ms: Some(duration_ms),
        spotify_id: Some(sid),
        created_at: now,
        updated_at: now,
    }
}

/// Model of the track upsert, as [`spec_upsert_artist`] for tracks.
pub open spec fn spec_upsert_track(
    m: CatalogModel,
    sid: String,
    title: String,
    track_number: i32,
    disc_number: i32,
    duration_ms: i32,
    album_id: u64,
    now: u64,
) -> (CatalogModel, u64) {
    match spec_find_track(m.tracks, sid@) {
        Some(i) => (m, m.tracks[i].id),
        None => (
            CatalogModel {
                tracks: m.tracks.push(
                    spec_new_track(
                        m.tracks.len() as u64,
                        album_id,
                        sid,
                        title,
                        track_number,
                        disc_number,
                        duration_ms,
                        now,
                    ),
                ),
                ..m
            },
            m.tracks.len() as u64,
        ),
    }
}

/// Upsert a track by its external id: an existing row is kept untouched, a
/// missing one is appended under the given album.
pub fn upsert_track(
    cat: &mut Catalog,
    sid: String,
    title: String,
    track_number: i32,
    disc_number: i32,
    duration_ms: i32,
    album_id: u64,
    now: u64,
) -> (r: u64)
    requires
        old(cat).wf(),
        old(cat)@.tracks.len() < u64::MAX,
    ensures
        final(cat).wf(),
        final(cat)@ == spec_upsert_track(
            old(cat)@,
            sid,
            title,
            track_number,
            disc_number,
            duration_ms,
            album_id,
            now,
        ).0,
        r == spec_upsert_track(
            old(cat)@,
            sid,
            title,
            track_number,
            disc_number,
            duration_ms,
            album_id,
            now,
        ).1,
        r < final(cat)@.tracks.len(),
        opt_sv(final(cat)@.tracks[r as int].spotify_id) == Some(sid@),
{
    match cat.find_track_by_spotify_id(sid.as_str()) {
        Some(i) => {
            assert(cat@.tracks[i as int].id == i as u64);
            i as u64
        },
        None => {
            let id: u64 = cat.tracks.len() as u64;
            let track = Track {
                id,
                album_id,
                title,
                track_number: Some(track_number),
                disc_number: Some(disc_number),
                duration_ms: Some(duration_ms),
                spotify_id: Some(sid),
                created_at: now,
                updated_at: now,
            };
            proof {
                lemma_find_track_none(cat@.tracks, track.spotify_id->0@, 0);
            }
            let ghost m0 = cat@;
            cat.tracks.push(track);
            proof {
                assert(cat@.tracks =~= m0.tracks.push(track));
                assert forall|i: int, j: int|
                    0 <= i < j < cat@.tracks.len() && cat@.tracks[i].spotify_id is Some
                        implies opt_sv(#[trigger] cat@.tracks[i].spotify_id) != opt_sv(
                    #[trigger] cat@.tracks[j].spotify_id,
                ) by {
                    if j < m0.tracks.len() {
                        assert(m0.wf());
                    } else {
                        assert(opt_sv(m0.tracks[i].spotify_id) != Some(track.spotify_id->0@));
                    }
                }
            }
            id
        },
    }
}

/// Upsert idempotence for track rows: a second upsert under the same
/// external id — at any later time — changes nothing, so repeated syncs
/// produce no duplicate track rows and no changed keys.
pub proof fn lemma_upsert_track_idempotent(
    m: CatalogModel,
    sid: String,
    title: String,
    track_number: i32,
    disc_number: i32,
    duration_ms: i32,
    album_id: u64,
    now1: u64,
    now2: u64,
)
    ensures
        ({
            let once = spec_upsert_track(
                m,
                sid,
                title,
                track_number,
                disc_number,
                duration_ms,
                album_id,
                now1,
            ).0;
            spec_upsert_track(
                once,
                sid,
                title,
                track_number,
                disc_number,
                duration_ms,
                album_id,
                now2,
            ).0 == once
        }),
{
    let once = spec_upsert_track(
        m,
        sid,
        title,
        track_number,
        disc_number,
        duration_ms,
        album_id,
        now1,
    ).0;
    match spec_find_track(m.tracks, sid@) {
        Some(_) => {
            assert(once == m);
        },
        None => {
            let new_row = spec_new_track(
                m.tracks.len() as u64,
                album_id,
                sid,
                title,
                track_number,
                disc_number,
                duration_ms,
                now1,
            );
            lemma_find_track_push(m.tracks, sid@, new_row, 0);
            assert(spec_find_track(once.tracks, sid@) is Some);
        },
    }
}

/// A playlist row refreshed from a fetched playlist: mutable metadata is
/// overwritten on every sync, while the snapshot token, the enabled flag and
/// the sync bookkeeping stay as they are.
pub open spec fn spec_updated_playlist(p: Playlist, pl: SpotifyPlaylist, now: u64) -> Playlist {
    Playlist {
        name: pl.name,
        description: pl.description,
        owner_name: pl.owner.display_name,
        is_collaborative: pl.collaborative,
        total_tracks: Some(pl.tracks.total),
        cover_image_url: if pl.images.len() > 0 {
            Some(pl.images[0].url)
        } else {
            None
        },
        updated_at: now,
        ..p
    }
}

/// The playlist row created for a first reference: disabled until the user
/// opts in, not synthetic, never synced.
pub open spec fn spec_new_playlist(id: u64, pl: SpotifyPlaylist, now: u64) -> Playlist {
    Playlist {
        id,
        name: pl.name,
        spotify_id: pl.id,
        description: pl.description,
        owner_name: pl.owner.display_name,
        is_collaborative: pl.collaborative,
        total_tracks: Some(pl.tracks.total),
        cover_image_url: if pl.images.len() > 0 {
            Some(pl.images[0].url)
        } else {
            None
        },
        snapshot_id: None,
        is_enabled: false,
        is_synthetic: false,
        owned_count: None,
        created_at: now,
        updated_at: now,
        last_synced_at: None,
    }
}

/// Model of the playlist upsert: refresh mutable metadata when present, else
/// append a fresh disabled row.
pub open spec fn spec_upsert_playlist(m: CatalogModel, pl: SpotifyPlaylist, now: u64) -> (
    CatalogModel,
    u64,
) {
    match spec_find_playlist(m.playlists, pl.id@) {
        Some(i) => (
            CatalogModel {
                playlists: m.playlists.update(i, spec_updated_playlist(m.playlists[i], pl, now)),
                ..m
            },
            m.playlists[i].id,
        ),
        None => (
            CatalogModel {
                playlists: m.playlists.push(spec_new_playlist(m.playlists.len() as u64, pl, now)),
                ..m
            },
            m.playlists.len() as u64,
        ),
    }
}

/// Upsert a playlist by its external id, consuming the fetched playlist.
/// Mutable metadata (name, owner, track count, cover) is refreshed on every
/// sync regardless of change detection; the snapshot token and enabled flag
/// are left alone.
pub fn upsert_playlist(cat: &mut Catalog, pl: SpotifyPlaylist, now: u64) -> (r: u64)
    requires
        old(cat).wf(),
        old(cat)@.playlists.len() < u64::MAX,
    ensures
        final(cat).wf(),
        final(cat)@ == spec_upsert_playlist(old(cat)@, pl, now).0,
        r == spec_upsert_playlist(old(cat)@, pl, now).1,
        r < final(cat)@.playlists.len(),
        final(cat)@.playlists[r as int].spotify_id@ == pl.id@,
{
    let found = cat.find_playlist_by_spotify_id(pl.id.as_str());
    let SpotifyPlaylist { id: sid, name, description, owner, collaborative, tracks, images, snapshot_id: _ } =
        pl;
    let mut images = images;
    let cover_image_url = if images.len() > 0 {
        let first = images.remove(0);
        Some(first.url)
    } else {
        None
    };
    match found {
        Some(i) => {
            let row = &cat.playlists[i];
            let updated = Playlist {
                id: row.id,
                name,
                spotify_id: row.spotify_id.clone(),
                description,
                owner_name: owner.display_name,
                is_collaborative: collaborative,
                total_tracks: Some(tracks.total),
                cover_image_url,
                snapshot_id: clone_opt_string(&row.snapshot_id),
                is_enabled: row.is_enabled,
                is_synthetic: row.is_synthetic,
                owned_count: row.owned_count,
                created_at: row.created_at,
                updated_at: now,
                last_synced_at: row.last_synced_at,
            };
            let ghost m0 = cat@;
            cat.playlists.set(i, updated);
            proof {
                assert(updated == spec_updated_playlist(m0.playlists[i as int], pl, now));
                assert(cat@.playlists =~= m0.playlists.update(
                    i as int,
                    spec_updated_playlist(m0.playlists[i as int], pl, now),
                ));
                assert(cat@ =~= spec_upsert_playlist(m0, pl, now).0);
                assert(m0.playlists[i as int].id == i as u64);
            }
            i as u64
        },
        None => {
            let id: u64 = cat.playlists.len() as u64;
            let row = Playlist {
                id,
                name,
                spotify_id: sid,
                description,
                owner_name: owner.display_name,
                is_collaborative: collaborative,
                total_tracks: Some(tracks.total),
                cover_image_url,
                snapshot_id: None,
                is_enabled: false,
                is_synthetic: false,
                owned_count: None,
                created_at: now,
                updated_at: now,
                last_synced_at: None,
            };
            proof {
                lemma_find_playlist_none(cat@.playlists, pl.id@, 0);
            }
            let ghost m0 = cat@;
            cat.playlists.push(row);
            proof {
                assert(cat@.playlists =~= m0.playlists.push(spec_new_playlist(id, pl, now)));
                assert(cat@ =~= spec_upsert_playlist(m0, pl, now).0);
                assert forall|i: int, j: int|
                    0 <= i < j < cat@.playlists.len() implies (
                #[trigger] cat@.playlists[i]).spotify_id@ != (
                #[trigger] cat@.playlists[j]).spotify_id@ by {
                    if j < m0.playlists.len() {
                        assert(m0.wf());
                    } else {
                        assert(m0.playlists[i].spotify_id@ != pl.id@);
                    }
                }
            }
            id
        },
    }
}

/// Model of the membership upsert: an existing (playlist, track) row gets the
/// new position, a missing one is appended with a fresh row key.
pub open spec fn spec_upsert_entry(
    m: CatalogModel,
    pid: u64,
    tid: u64,
    position: u32,
    added_at: Option<String>,
    now: u64,
) -> CatalogModel {
    match spec_find_entry(m.entries, pid, tid) {
        Some(i) => CatalogModel {
            entries: m.entries.update(
                i,
                PlaylistEntry { position, updated_at: now, ..m.entries[i] },
            ),
            ..m
        },
        None => CatalogModel {
            entries: m.entries.push(
                PlaylistEntry {
                    id: m.next_entry_id,
                    playlist_id: pid,
                    track_id: tid,
                    position,
                    added_at,
                    created_at: now,
                    updated_at: now,
                },
            ),
            next_entry_id: (m.next_entry_id + 1) as u64,
            ..m
        },
    }
}

/// Upsert the membership of track `tid` in playlist `pid` at `position`.
pub fn upsert_playlist_track(
    cat: &mut Catalog,
    pid: u64,
    tid: u64,
    position: u32,
    added_at: Option<String>,
    now: u64,
)
    requires
        old(cat).wf(),
        old(cat)@.next_entry_id < u64::MAX,
    ensures
        final(cat).wf(),
        final(cat)@ == spec_upsert_entry(old(cat)@, pid, tid, position, added_at, now),
        spec_find_entry(final(cat)@.entries, pid, tid) is Some,
{
    match cat.find_entry(pid, tid) {
        Some(i) => {
            let row = &cat.entries[i];
            let updated = PlaylistEntry {
                id: row.id,
                playlist_id: row.playlist_id,
                track_id: row.track_id,
                position,
                added_at: clone_opt_string(&row.added_at),
                created_at: row.created_at,
                updated_at: now,
            };
            let ghost m0 = cat@;
            cat.entries.set(i, updated);
            proof {
                assert(updated == PlaylistEntry {
                    position,
                    updated_at: now,
                    ..m0.entries[i as int]
                });
                assert(cat@.entries =~= m0.entries.update(
                    i as int,
                    PlaylistEntry { position, updated_at: now, ..m0.entries[i as int] },
                ));
                assert(cat@ =~= spec_upsert_entry(m0, pid, tid, position, added_at, now));
                assert forall|a: int, b: int|
                    0 <= a < b < cat@.entries.len() implies !((
                #[trigger] cat@.entries[a]).playlist_id == (
                #[trigger] cat@.entries[b]).playlist_id && cat@.entries[a].track_id
                    == cat@.entries[b].track_id) by {
                    assert(m0.wf());
                    assert(cat@.entries[a].playlist_id == m0.entries[a].playlist_id);
                    assert(cat@.entries[b].playlist_id == m0.entries[b].playlist_id);
                }
                assert(spec_find_entry(cat@.entries, pid, tid) is Some) by {
                    lemma_find_entry_first_match(cat@.entries, pid, tid, i as int);
                }
            }
        },
        None => {
            let row = PlaylistEntry {
                id: cat.next_entry_id,
                playlist_id: pid,
                track_id: tid,
                position,
                added_at,
                created_at: now,
                updated_at: now,
            };
            proof {
                lemma_find_entry_none(cat@.entries, pid, tid, 0);
            }
            let ghost m0 = cat@;
            cat.entries.push(row);
            cat.next_entry_id = cat.next_entry_id + 1;
            proof {
                assert(cat@.entries =~= m0.entries.push(row));
                assert(cat@ =~= spec_upsert_entry(m0, pid, tid, position, added_at, now));
                assert forall|a: int, b: int|
                    0 <= a < b < cat@.entries.len() implies !((
                #[trigger] cat@.entries[a]).playlist_id == (
                #[trigger] cat@.entries[b]).playlist_id && cat@.entries[a].track_id
                    == cat@.entries[b].track_id) by {
                    if b < m0.entries.len() {
                        assert(m0.wf());
                    }
                }
                assert(spec_find_entry(cat@.entries, pid, tid) is Some) by {
                    lemma_find_entry_first_match(cat@.entries, pid, tid, m0.entries.len() as int);
                }
            }
        },
    }
}

/// A matching row at some index means the first-match search succeeds.
pub proof fn lemma_find_entry_first_match(s: Seq<PlaylistEntry>, pid: u64, tid: u64, at: int)
    requires
        0 <= at < s.len(),
        s[at].playlist_id == pid,
        s[at].track_id == tid,
    ensures
        spec_find_entry(s, pid, tid) is Some,
{
    lemma_find_entry_reaches(s, pid, tid, 0, at);
}

/// Helper: the search from `i` succeeds when a match exists at `at >= i`.
proof fn lemma_find_entry_reaches(s: Seq<PlaylistEntry>, pid: u64, tid: u64, i: int, at: int)
    requires
        0 <= i <= at < s.len(),
        s[at].playlist_id == pid,
        s[at].track_id == tid,
    ensures
        crate::catalog::find_entry_from(s, pid, tid, i) is Some,
    decreases at - i,
{
    if i < at && !(s[i].playlist_id == pid && s[i].track_id == tid) {
        lemma_find_entry_reaches(s, pid, tid, i + 1, at);
    }
}

/// Some member track of playlist `pid` carries the external id `sid`.
pub open spec fn member_with_external_id(m: CatalogModel, pid: u64, sid: Seq<char>) -> bool {
    exists|t: u64|
        entry_pair_present(m.entries, pid, t) && t < m.tracks.len() && opt_sv(
            #[trigger] m.tracks[t as int].spotify_id,
        ) == Some(sid)
}

/// Some row of `s` joins playlist `p` and track `t`.
pub open spec fn entry_pair_present(s: Seq<PlaylistEntry>, p: u64, t: u64) -> bool {
    exists|j: int| 0 <= j < s.len() && (#[trigger] s[j]).playlist_id == p && s[j].track_id == t
}

/// Model of membership cleanup: rows of playlist `pid` whose track is absent
/// from `valid` are deleted; everything else is kept in order.
pub open spec fn spec_cleanup_entries(s: Seq<PlaylistEntry>, pid: u64, valid: Seq<u64>) -> Seq<
    PlaylistEntry,
>
    decreases s.len(),
{
    if s.len() == 0 {
        Seq::empty()
    } else {
        let rest = spec_cleanup_entries(s.drop_first(), pid, valid);
        if s[0].playlist_id == pid && !valid.contains(s[0].track_id) {
            rest
        } else {
            seq![s[0]] + rest
        }
    }
}

/// What cleanup keeps: a pair is present afterwards exactly when it was
/// present before and, for the cleaned playlist, its track is in `valid`;
/// kept rows are rows of the input.
pub proof fn lemma_cleanup_entries_present(s: Seq<PlaylistEntry>, pid: u64, valid: Seq<u64>)
    ensures
        forall|p: u64, t: u64|
            entry_pair_present(spec_cleanup_entries(s, pid, valid), p, t) <==> (entry_pair_present(
                s,
                p,
                t,
            ) && (p != pid || valid.contains(t))),
        forall|k: int|
            0 <= k < spec_cleanup_entries(s, pid, valid).len() ==> s.contains(
                #[trigger] spec_cleanup_entries(s, pid, valid)[k],
            ),
        forall|j: int|
            0 <= j < s.len() && !((#[trigger] s[j]).playlist_id == pid && !valid.contains(
                s[j].track_id,
            )) ==> spec_cleanup_entries(s, pid, valid).contains(s[j]),
    decreases s.len(),
{
    if s.len() > 0 {
        let rest = spec_cleanup_entries(s.drop_first(), pid, valid);
        lemma_cleanup_entries_present(s.drop_first(), pid, valid);
        let r = spec_cleanup_entries(s, pid, valid);
        assert forall|k: int| 0 <= k < r.len() implies s.contains(#[trigger] r[k]) by {
            if s[0].playlist_id == pid && !valid.contains(s[0].track_id) {
                assert(s.drop_first().contains(r[k]));
                let j = choose|j: int|
                    0 <= j < s.drop_first().len() && s.drop_first()[j] == r[k];
                assert(s[j + 1] == r[k]);
            } else {
                if k == 0 {
                    assert(s[0] == r[0]);
                } else {
                    assert(rest[k - 1] == r[k]);
                    assert(s.drop_first().contains(rest[k - 1]));
                    let j = choose|j: int|
                        0 <= j < s.drop_first().len() && s.drop_first()[j] == rest[k - 1];
                    assert(s[j + 1] == r[k]);
                }
            }
        }
        let d = s.drop_first();
        let dropped_head = s[0].playlist_id == pid && !valid.contains(s[0].track_id);
        assert forall|j: int|
            0 <= j < s.len() && !((#[trigger] s[j]).playlist_id == pid && !valid.contains(
                s[j].track_id,
            )) implies r.contains(s[j]) by {
            if j == 0 {
                assert(!dropped_head);
                assert(r[0] == s[0]);
            } else {
                assert(d[j - 1] == s[j]);
                assert(spec_cleanup_entries(d, pid, valid).contains(s[j]));
                let w = choose|w: int|
                    0 <= w < rest.len() && rest[w] == s[j];
                if dropped_head {
                    assert(r[w] == rest[w]);
                } else {
                    assert(r[w + 1] == rest[w]);
                }
            }
        }
        assert forall|p: u64, t: u64| entry_pair_present(r, p, t) implies (entry_pair_present(
            s,
            p,
            t,
        ) && (p != pid || valid.contains(t))) by {
            let k = choose|k: int|
                0 <= k < r.len() && (#[trigger] r[k]).playlist_id == p && r[k].track_id == t;
            if dropped_head {
                assert(r[k] == rest[k]);
                assert(entry_pair_present(rest, p, t));
            } else {
                if k == 0 {
                    assert(r[0] == s[0]);
                } else {
                    assert(r[k] == rest[k - 1]);
                    assert(entry_pair_present(rest, p, t));
                }
            }
            if entry_pair_present(rest, p, t) {
                assert(entry_pair_present(d, p, t));
                let j = choose|j: int|
                    0 <= j < d.len() && (#[trigger] d[j]).playlist_id == p && d[j].track_id == t;
                assert(s[j + 1].playlist_id == p && s[j + 1].track_id == t);
            }
        }
        assert forall|p: u64, t: u64|
            entry_pair_present(s, p, t) && (p != pid || valid.contains(t)) implies
            entry_pair_present(r, p, t) by {
            let j = choose|j: int|
                0 <= j < s.len() && (#[trigger] s[j]).playlist_id == p && s[j].track_id == t;
            if j == 0 {
                assert(!dropped_head);
                assert(r[0] == s[0]);
            } else {
                assert(d[j - 1] == s[j]);
                assert(entry_pair_present(d, p, t));
                assert(entry_pair_present(rest, p, t));
                let k = choose|k: int|
                    0 <= k < rest.len() && (#[trigger] rest[k]).playlist_id == p && rest[k].track_id
                        == t;
                if dropped_head {
                    assert(r[k] == rest[k]);
                } else {
                    assert(r[k + 1] == rest[k]);
                }
            }
        }
    }
}

/// Cleanup keeps membership rows pairwise unique.
pub proof fn lemma_cleanup_entries_unique(s: Seq<PlaylistEntry>, pid: u64, valid: Seq<u64>)
    requires
        forall|i: int, j: int|
            0 <= i < j < s.len() ==> !((#[trigger] s[i]).playlist_id == (
            #[trigger] s[j]).playlist_id && s[i].track_id == s[j].track_id),
    ensures
        forall|i: int, j: int|
            0 <= i < j < spec_cleanup_entries(s, pid, valid).len() ==> !((
            #[trigger] spec_cleanup_entries(s, pid, valid)[i]).playlist_id == (
            #[trigger] spec_cleanup_entries(s, pid, valid)[j]).playlist_id
                && spec_cleanup_entries(s, pid, valid)[i].track_id == spec_cleanup_entries(
                s,
                pid,
                valid,
            )[j].track_id),
    decreases s.len(),
{
    if s.len() > 0 {
        let d = s.drop_first();
        assert forall|i: int, j: int| 0 <= i < j < d.len() implies !((
        #[trigger] d[i]).playlist_id == (#[trigger] d[j]).playlist_id && d[i].track_id
            == d[j].track_id) by {
            assert(d[i] == s[i + 1]);
            assert(d[j] == s[j + 1]);
        }
        lemma_cleanup_entries_unique(d, pid, valid);
        lemma_cleanup_entries_present(d, pid, valid);
        let rest = spec_cleanup_entries(d, pid, valid);
        let r = spec_cleanup_entries(s, pid, valid);
        if !(s[0].playlist_id == pid && !valid.contains(s[0].track_id)) {
            assert forall|i: int, j: int| 0 <= i < j < r.len() implies !((
            #[trigger] r[i]).playlist_id == (#[trigger] r[j]).playlist_id && r[i].track_id
                == r[j].track_id) by {
                if i == 0 {
                    assert(r[0] == s[0]);
                    assert(r[j] == rest[j - 1]);
                    assert(d.contains(rest[j - 1]));
                    let w = choose|w: int| 0 <= w < d.len() && d[w] == rest[j - 1];
                    assert(s[w + 1] == rest[j - 1]);
                } else {
                    assert(r[i] == rest[i - 1]);
                    assert(r[j] == rest[j - 1]);
                }
            }
        }
    }
}

/// Clone a membership row.
fn clone_entry(e: &PlaylistEntry) -> (r: PlaylistEntry)
    ensures
        r == *e,
{
    PlaylistEntry {
        id: e.id,
        playlist_id: e.playlist_id,
        track_id: e.track_id,
        position: e.position,
        added_at: clone_opt_string(&e.added_at),
        created_at: e.created_at,
        updated_at: e.updated_at,
    }
}

/// Delete the membership rows of playlist `pid` whose track is absent from
/// the freshly fetched set `valid` (reconciles removals); all other rows stay.
pub fn cleanup_removed_tracks(cat: &mut Catalog, pid: u64, valid: &Vec<u64>)
    requires
        old(cat).wf(),
    ensures
        final(cat).wf(),
        final(cat)@ == (CatalogModel {
            entries: spec_cleanup_entries(old(cat)@.entries, pid, valid@),
            ..old(cat)@
        }),
{
    let ghost orig = cat@.entries;
    let mut kept: Vec<PlaylistEntry> = Vec::new();
    proof {
        assert(orig.skip(0) =~= orig);
        assert(kept@ + spec_cleanup_entries(orig, pid, valid@) =~= spec_cleanup_entries(
            orig,
            pid,
            valid@,
        ));
    }
    let n = cat.entries.len();
    for i in 0..n
        invariant
            n == cat.entries@.len(),
            cat@.entries == orig,
            kept@ + spec_cleanup_entries(orig.skip(i as int), pid, valid@) =~= spec_cleanup_entries(
                orig,
                pid,
                valid@,
            ),
    {
        let e = &cat.entries[i];
        proof {
            assert(orig.skip(i as int)[0] == orig[i as int]);
            assert(orig.skip(i as int).drop_first() =~= orig.skip(i + 1));
        }
        if !(e.playlist_id == pid && !contains_u64(valid, e.track_id)) {
            let copy = clone_entry(e);
            kept.push(copy);
            proof {
                assert(kept@ + spec_cleanup_entries(orig.skip(i + 1), pid, valid@)
                    =~= spec_cleanup_entries(orig, pid, valid@));
            }
        }
    }
    proof {
        assert(orig.skip(n as int) =~= Seq::<PlaylistEntry>::empty());
        assert(kept@ =~= spec_cleanup_entries(orig, pid, valid@));
        lemma_cleanup_entries_unique(orig, pid, valid@);
    }
    cat.entries = kept;
}

/// A fetched playlist item that can be synced: it has track data and the
/// track has an external id (local files and deleted tracks have neither).
pub open spec fn is_valid_item(it: SpotifyPlaylistTrack) -> bool {
    it.track is Some && it.track->0.id is Some
}

/// External ids of the syncable items, in fetch order.
pub open spec fn valid_sids(items: Seq<SpotifyPlaylistTrack>) -> Seq<Seq<char>>
    decreases items.len(),
{
    if items.len() == 0 {
        Seq::empty()
    } else {
        let rest = valid_sids(items.drop_first());
        if is_valid_item(items[0]) {
            seq![items[0].track->0.id->0@] + rest
        } else {
            rest
        }
    }
}

/// Fetch positions of the syncable items at or after `i`, in fetch order.
pub open spec fn valid_positions_from(items: Seq<SpotifyPlaylistTrack>, i: int) -> Seq<int>
    decreases items.len() - i,
{
    if i < 0 || i >= items.len() {
        Seq::empty()
    } else {
        let rest = valid_positions_from(items, i + 1);
        if is_valid_item(items[i]) {
            seq![i] + rest
        } else {
            rest
        }
    }
}

/// Some row of `s` joins playlist `pid` and track `tid` at `position`.
pub open spec fn entry_at(s: Seq<PlaylistEntry>, pid: u64, tid: u64, position: int) -> bool {
    exists|j: int|
        0 <= j < s.len() && (#[trigger] s[j]).playlist_id == pid && s[j].track_id == tid
            && s[j].position == position
}

/// The syncable items carry pairwise-distinct external ids.
pub open spec fn distinct_sids(items: Seq<SpotifyPlaylistTrack>) -> bool {
    forall|k1: int, k2: int|
        0 <= k1 < k2 < valid_sids(items).len() ==> valid_sids(items)[k1] != valid_sids(items)[k2]
}

/// The membership upsert makes exactly one pair present: its own.
pub proof fn lemma_upsert_entry_present(
    m: CatalogModel,
    pid: u64,
    tid: u64,
    position: u32,
    added_at: Option<String>,
    now: u64,
    p: u64,
    t: u64,
)
    ensures
        entry_pair_present(spec_upsert_entry(m, pid, tid, position, added_at, now).entries, p, t)
            <==> (entry_pair_present(m.entries, p, t) || (p == pid && t == tid)),
{
    let r = spec_upsert_entry(m, pid, tid, position, added_at, now).entries;
    match spec_find_entry(m.entries, pid, tid) {
        Some(i) => {
            lemma_find_entry_some(m.entries, pid, tid, 0);
            if entry_pair_present(r, p, t) {
                let k = choose|k: int|
                    0 <= k < r.len() && (#[trigger] r[k]).playlist_id == p && r[k].track_id == t;
                if k != i {
                    assert(m.entries[k].playlist_id == p && m.entries[k].track_id == t);
                }
            }
            if p == pid && t == tid {
                assert(r[i].playlist_id == pid && r[i].track_id == tid);
            } else if entry_pair_present(m.entries, p, t) {
                let k = choose|k: int|
                    0 <= k < m.entries.len() && (#[trigger] m.entries[k]).playlist_id == p
                        && m.entries[k].track_id == t;
                assert(k != i);
                assert(r[k].playlist_id == p && r[k].track_id == t);
            }
        },
        None => {
            if entry_pair_present(r, p, t) {
                let k = choose|k: int|
                    0 <= k < r.len() && (#[trigger] r[k]).playlist_id == p && r[k].track_id == t;
                if k < m.entries.len() {
                    assert(m.entries[k].playlist_id == p && m.entries[k].track_id == t);
                }
            }
            if p == pid && t == tid {
                assert(r[m.entries.len() as int].playlist_id == pid);
                assert(r[m.entries.len() as int].track_id == tid);
            } else if entry_pair_present(m.entries, p, t) {
                let k = choose|k: int|
                    0 <= k < m.entries.len() && (#[trigger] m.entries[k]).playlist_id == p
                        && m.entries[k].track_id == t;
                assert(r[k].playlist_id == p && r[k].track_id == t);
            }
        },
    }
}

/// Reconcile the membership rows of one playlist against a freshly fetched
/// track list: upsert artist, album (provenance `PlaylistImport`) and track
/// for each syncable item, upsert its membership row at its fetch position,
/// and delete memberships whose track is absent from the fetched set.
///
/// Returns the row keys of the fetched tracks, in fetch order. Afterwards a
/// track is a member of the playlist exactly when its key is among those, and
/// the membership rows of every other playlist are untouched.
pub fn sync_playlist_tracks(
    cat: &mut Catalog,
    playlist_id: u64,
    items: Vec<SpotifyPlaylistTrack>,
    now: u64,
) -> (r: Vec<u64>)
    requires
        old(cat).wf(),
        items@.len() <= u32::MAX,
        old(cat)@.artists.len() + items@.len() <= u64::MAX,
        old(cat)@.albums.len() + items@.len() <= u64::MAX,
        old(cat)@.tracks.len() + items@.len() <= u64::MAX,
        old(cat)@.next_entry_id + items@.len() <= u64::MAX,
        forall|i: int|
            0 <= i < items@.len() && is_valid_item(#[trigger] items@[i])
                ==> items@[i].track->0.artists@.len() >= 1,
    ensures
        final(cat).wf(),
        final(cat)@.playlists == old(cat)@.playlists,
        final(cat)@.downloads == old(cat)@.downloads,
        final(cat)@.artists.len() >= old(cat)@.artists.len(),
        final(cat)@.albums.len() >= old(cat)@.albums.len(),
        final(cat)@.tracks.len() >= old(cat)@.tracks.len(),
        final(cat)@.artists.len() <= old(cat)@.artists.len() + items@.len(),
        final(cat)@.albums.len() <= old(cat)@.albums.len() + items@.len(),
        final(cat)@.tracks.len() <= old(cat)@.tracks.len() + items@.len(),
        final(cat)@.next_entry_id <= old(cat)@.next_entry_id + items@.len(),
        forall|i: int|
            0 <= i < old(cat)@.artists.len() ==> final(cat)@.artists[i] == old(cat)@.artists[i],
        forall|i: int|
            0 <= i < old(cat)@.albums.len() ==> final(cat)@.albums[i] == old(cat)@.albums[i],
        forall|i: int|
            0 <= i < old(cat)@.tracks.len() ==> final(cat)@.tracks[i] == old(cat)@.tracks[i],
        r@.len() == valid_sids(items@).len(),
        forall|k: int| 0 <= k < r@.len() ==> (#[trigger] r@[k]) < final(cat)@.tracks.len(),
        forall|k: int|
            0 <= k < r@.len() ==> opt_sv(
                final(cat)@.tracks[(#[trigger] r@[k]) as int].spotify_id,
            ) == Some(valid_sids(items@)[k]),
        forall|t: u64|
            entry_pair_present(final(cat)@.entries, playlist_id, t) <==> r@.contains(t),
        forall|p: u64, t: u64|
            p != playlist_id ==> (entry_pair_present(final(cat)@.entries, p, t)
                <==> entry_pair_present(old(cat)@.entries, p, t)),
        // with pairwise-distinct fetched ids, every fetched track's
        // membership row carries its fetch position
        distinct_sids(items@) ==> forall|k: int|
            0 <= k < r@.len() ==> entry_at(
                final(cat)@.entries,
                playlist_id,
                #[trigger] r@[k],
                valid_positions_from(items@, 0)[k],
            ),
{
    let ghost orig = items@;
    let ghost m0 = old(cat)@;
    let ghost mut done: Seq<Seq<char>> = Seq::empty();
    let ghost mut donep: Seq<int> = Seq::empty();
    let mut items = items;
    let mut r: Vec<u64> = Vec::new();
    let mut pos: usize = 0;
    proof {
        assert(orig.skip(0) =~= orig);
        assert(done + valid_sids(orig) =~= valid_sids(orig));
        assert(donep + valid_positions_from(orig, 0) =~= valid_positions_from(orig, 0));
    }
    while items.len() > 0
        invariant
            cat.wf(),
            pos == orig.len() - items@.len(),
            pos <= orig.len() <= u32::MAX,
            items@ =~= orig.skip(pos as int),
            forall|i: int|
                0 <= i < orig.len() && is_valid_item(#[trigger] orig[i]) ==> orig[i].track->0.artists@.len() >= 1,
            cat@.playlists == m0.playlists,
            cat@.downloads == m0.downloads,
            cat@.artists.len() + items@.len() <= u64::MAX,
            cat@.albums.len() + items@.len() <= u64::MAX,
            cat@.tracks.len() + items@.len() <= u64::MAX,
            cat@.next_entry_id + items@.len() <= u64::MAX,
            cat@.artists.len() >= m0.artists.len(),
            cat@.albums.len() >= m0.albums.len(),
            cat@.tracks.len() >= m0.tracks.len(),
            cat@.artists.len() <= m0.artists.len() + pos,
            cat@.albums.len() <= m0.albums.len() + pos,
            cat@.tracks.len() <= m0.tracks.len() + pos,
            cat@.next_entry_id <= m0.next_entry_id + pos,
            forall|i: int| 0 <= i < m0.artists.len() ==> cat@.artists[i] == m0.artists[i],
            forall|i: int| 0 <= i < m0.albums.len() ==> cat@.albums[i] == m0.albums[i],
            forall|i: int| 0 <= i < m0.tracks.len() ==> cat@.tracks[i] == m0.tracks[i],
            r@.len() == done.len(),
            r@.len() == donep.len(),
            done + valid_sids(orig.skip(pos as int)) =~= valid_sids(orig),
            donep + valid_positions_from(orig, pos as int) =~= valid_positions_from(orig, 0),
            distinct_sids(orig) ==> forall|k: int|
                0 <= k < r@.len() ==> entry_at(
                    cat@.entries,
                    playlist_id,
                    #[trigger] r@[k],
                    donep[k],
                ),
            forall|k: int| 0 <= k < r@.len() ==> (#[trigger] r@[k]) < cat@.tracks.len(),
            forall|k: int|
                0 <= k < r@.len() ==> opt_sv(cat@.tracks[(#[trigger] r@[k]) as int].spotify_id)
                    == Some(done[k]),
            forall|k: int|
                0 <= k < r@.len() ==> entry_pair_present(cat@.entries, playlist_id, #[trigger] r@[k]),
            forall|p: u64, t: u64|
                p != playlist_id ==> (entry_pair_present(cat@.entries, p, t)
                    <==> entry_pair_present(m0.entries, p, t)),
            forall|t: u64|
                entry_pair_present(cat@.entries, playlist_id, t) ==> (entry_pair_present(
                    m0.entries,
                    playlist_id,
                    t,
                ) || r@.contains(t)),
        decreases items@.len(),
    {
        let ghost r0 = r@;
        let ghost done0 = done;
        let ghost donep0 = donep;
        proof {
            assert(orig.skip(pos as int)[0] == orig[pos as int]);
            assert(orig.skip(pos as int).drop_first() =~= orig.skip(pos + 1));
        }
        let it = items.remove(0);
        let SpotifyPlaylistTrack { track, added_at } = it;
        match track {
            Some(t) => {
                let SpotifyTrack { id, name, track_number, disc_number, duration_ms, album, artists } =
                    t;
                match id {
                    Some(sid) => {
                        let ghost sidv = sid@;
                        let ghost pre = cat@;
                        let artist_id = upsert_artist(cat, &artists[0], now);
                        proof {
                            assert(cat@.tracks == pre.tracks);
                            assert(cat@.entries == pre.entries);
                        }
                        let album_id = upsert_album(
                            cat,
                            album,
                            artist_id,
                            AlbumSource::PlaylistImport,
                            now,
                        );
                        proof {
                            assert(cat@.tracks == pre.tracks);
                            assert(cat@.entries == pre.entries);
                        }
                        let ghost before_track = cat@;
                        let track_key = upsert_track(
                            cat,
                            sid,
                            name,
                            track_number,
                            disc_number,
                            duration_ms,
                            album_id,
                            now,
                        );
                        proof {
                            assert(cat@.entries == pre.entries);
                            assert(cat@.tracks.len() >= before_track.tracks.len());
                            assert(forall|i: int|
                                0 <= i < before_track.tracks.len() ==> cat@.tracks[i]
                                    == before_track.tracks[i]);
                        }
                        r.push(track_key);
                        proof {
                            done = done.push(sidv);
                            donep = donep.push(pos as int);
                        }
                        assert(track_key < cat@.tracks.len() && opt_sv(
                            cat@.tracks[track_key as int].spotify_id,
                        ) == Some(sidv));
                        let ghost aa = added_at;
                        let pos32 = pos as u32;
                        let ghost before_entry = cat@;
                        upsert_playlist_track(cat, playlist_id, track_key, pos32, added_at, now);
                        proof {
                            assert(cat@.entries == spec_upsert_entry(
                                before_entry,
                                playlist_id,
                                track_key,
                                pos32,
                                aa,
                                now,
                            ).entries);
                            assert(cat@.tracks == before_entry.tracks);
                            assert(valid_sids(orig.skip(pos as int)) =~= seq![sidv] + valid_sids(
                                orig.skip(pos + 1),
                            ));
                            assert(done + valid_sids(orig.skip(pos + 1)) =~= valid_sids(orig));
                            assert(valid_positions_from(orig, pos as int) =~= seq![pos as int]
                                + valid_positions_from(orig, pos + 1));
                            assert(donep + valid_positions_from(orig, pos + 1)
                                =~= valid_positions_from(orig, 0));
                            assert(before_entry.entries == pre.entries);
                            assert forall|k: int| 0 <= k < r@.len() implies (#[trigger] r@[k])
                                < cat@.tracks.len() by {
                                assert(cat@.tracks.len() >= pre.tracks.len());
                                if k < r0.len() {
                                    assert(r@[k] == r0[k]);
                                    assert(r0[k] < pre.tracks.len());
                                } else {
                                    assert(r@[k] == track_key);
                                }
                            }
                            assert forall|k: int|
                                0 <= k < r@.len() implies opt_sv(
                                cat@.tracks[(#[trigger] r@[k]) as int].spotify_id,
                            ) == Some(done[k]) by {
                                if k < r0.len() {
                                    assert(r@[k] == r0[k]);
                                    assert(done[k] == done0[k]);
                                    assert(r0[k] < pre.tracks.len() && opt_sv(
                                        pre.tracks[r0[k] as int].spotify_id,
                                    ) == Some(done0[k]));
                                } else {
                                    assert(r@[k] == track_key);
                                    assert(done[k] == sidv);
                                }
                            }
                            assert forall|k: int|
                                0 <= k < r@.len() implies entry_pair_present(
                                cat@.entries,
                                playlist_id,
                                #[trigger] r@[k],
                            ) by {
                                lemma_upsert_entry_present(
                                    before_entry,
                                    playlist_id,
                                    track_key,
                                    pos32,
                                    aa,
                                    now,
                                    playlist_id,
                                    r@[k],
                                );
                                if k < r0.len() {
                                    assert(r@[k] == r0[k]);
                                    assert(entry_pair_present(pre.entries, playlist_id, r0[k]));
                                }
                            }
                            assert forall|p: u64, t: u64| p != playlist_id implies (
                            entry_pair_present(cat@.entries, p, t) <==> entry_pair_present(
                                m0.entries,
                                p,
                                t,
                            )) by {
                                lemma_upsert_entry_present(
                                    before_entry,
                                    playlist_id,
                                    track_key,
                                    pos32,
                                    aa,
                                    now,
                                    p,
                                    t,
                                );
                            }
                            assert forall|t: u64|
                                entry_pair_present(cat@.entries, playlist_id, t) implies (
                            entry_pair_present(m0.entries, playlist_id, t) || r@.contains(t)) by {
                                lemma_upsert_entry_present(
                                    before_entry,
                                    playlist_id,
                                    track_key,
                                    pos32,
                                    aa,
                                    now,
                                    playlist_id,
                                    t,
                                );
                                if entry_pair_present(pre.entries, playlist_id, t) {
                                    if r0.contains(t) {
                                        let k = choose|k: int| 0 <= k < r0.len() && r0[k] == t;
                                        assert(r@[k] == t);
                                    }
                                } else {
                                    assert(t == track_key);
                                    assert(r@[r@.len() - 1] == track_key);
                                }
                            }
                            if distinct_sids(orig) {
                                assert(opt_sv(cat@.tracks[track_key as int].spotify_id) == Some(
                                    sidv,
                                ));
                                assert forall|k: int| 0 <= k < r@.len() implies entry_at(
                                    cat@.entries,
                                    playlist_id,
                                    #[trigger] r@[k],
                                    donep[k],
                                ) by {
                                    if k < r0.len() {
                                        assert(r@[k] == r0[k]);
                                        assert(donep[k] == donep0[k]);
                                        assert(done[k] == done0[k]);
                                        assert(done0[k] == valid_sids(orig)[k]);
                                        assert(valid_sids(orig)[done0.len() as int] == sidv) by {
                                            assert(valid_sids(orig) =~= done0 + (seq![sidv]
                                                + valid_sids(orig.skip(pos + 1))));
                                        }
                                        assert(done0.len() < valid_sids(orig).len());
                                        assert(done0[k] != sidv);
                                        assert(r0[k] < pre.tracks.len());
                                        assert(cat@.tracks[r0[k] as int] == pre.tracks[r0[k] as int]);
                                        assert(opt_sv(cat@.tracks[r0[k] as int].spotify_id)
                                            == Some(done0[k]));
                                        assert(r0[k] != track_key);
                                        assert(entry_at(
                                            before_entry.entries,
                                            playlist_id,
                                            r0[k],
                                            donep0[k],
                                        ));
                                        let j = choose|j: int|
                                            0 <= j < before_entry.entries.len() && (
                                            #[trigger] before_entry.entries[j]).playlist_id
                                                == playlist_id && before_entry.entries[j].track_id
                                                == r0[k] && before_entry.entries[j].position
                                                == donep0[k];
                                        match spec_find_entry(
                                            before_entry.entries,
                                            playlist_id,
                                            track_key,
                                        ) {
                                            Some(i0) => {
                                                lemma_find_entry_some(
                                                    before_entry.entries,
                                                    playlist_id,
                                                    track_key,
                                                    0,
                                                );
                                                assert(j != i0);
                                                assert(cat@.entries[j]
                                                    == before_entry.entries[j]);
                                            },
                                            None => {
                                                assert(cat@.entries[j]
                                                    == before_entry.entries[j]);
                                            },
                                        }
                                    } else {
                                        assert(r@[k] == track_key);
                                        assert(donep[k] == pos as int);
                                        match spec_find_entry(
                                            before_entry.entries,
                                            playlist_id,
                                            track_key,
                                        ) {
                                            Some(i0) => {
                                                lemma_find_entry_some(
                                                    before_entry.entries,
                                                    playlist_id,
                                                    track_key,
                                                    0,
                                                );
                                                assert(cat@.entries[i0].playlist_id
                                                    == playlist_id);
                                                assert(cat@.entries[i0].track_id == track_key);
                                                assert(cat@.entries[i0].position == pos32);
                                            },
                                            None => {
                                                let last = before_entry.entries.len() as int;
                                                assert(cat@.entries[last].playlist_id
                                                    == playlist_id);
                                                assert(cat@.entries[last].track_id == track_key);
                                                assert(cat@.entries[last].position == pos32);
                                            },
                                        }
                                    }
                                }
                            }
                        }
                    },
                    None => {
                        proof {
                            assert(!is_valid_item(orig[pos as int]));
                            assert(valid_sids(orig.skip(pos as int)) =~= valid_sids(
                                orig.skip(pos + 1),
                            ));
                            assert(valid_positions_from(orig, pos as int) =~= valid_positions_from(
                                orig,
                                pos + 1,
                            ));
                        }
                    },
                }
            },
            None => {
                proof {
                    assert(!is_valid_item(orig[pos as int]));
                    assert(valid_sids(orig.skip(pos as int)) =~= valid_sids(orig.skip(pos + 1)));
                    assert(valid_positions_from(orig, pos as int) =~= valid_positions_from(
                        orig,
                        pos + 1,
                    ));
                }
            },
        }
        pos = pos + 1;
    }
    proof {
        assert(orig.skip(orig.len() as int) =~= Seq::<SpotifyPlaylistTrack>::empty());
        assert(done =~= valid_sids(orig));
    }
    let ghost before_cleanup = cat@;
    cleanup_removed_tracks(cat, playlist_id, &r);
    proof {
        assert(cat@.tracks == before_cleanup.tracks);
        assert(cat@.artists == before_cleanup.artists);
        assert(cat@.albums == before_cleanup.albums);
        assert(cat@.entries == spec_cleanup_entries(before_cleanup.entries, playlist_id, r@));
        lemma_cleanup_entries_present(before_cleanup.entries, playlist_id, r@);
        assert forall|t: u64|
            entry_pair_present(cat@.entries, playlist_id, t) <==> r@.contains(t) by {
            if r@.contains(t) {
                let k = choose|k: int| 0 <= k < r@.len() && r@[k] == t;
                assert(entry_pair_present(before_cleanup.entries, playlist_id, r@[k]));
            }
        }
        if distinct_sids(orig) {
            assert(valid_positions_from(orig, orig.len() as int) =~= Seq::<int>::empty());
            assert(donep =~= valid_positions_from(orig, 0));
            assert forall|k: int| 0 <= k < r@.len() implies entry_at(
                cat@.entries,
                playlist_id,
                #[trigger] r@[k],
                valid_positions_from(orig, 0)[k],
            ) by {
                assert(entry_at(before_cleanup.entries, playlist_id, r@[k], donep[k]));
                let j = choose|j: int|
                    0 <= j < before_cleanup.entries.len() && (
                    #[trigger] before_cleanup.entries[j]).playlist_id == playlist_id
                        && before_cleanup.entries[j].track_id == r@[k]
                        && before_cleanup.entries[j].position == donep[k];
                assert(r@.contains(r@[k]));
                assert(cat@.entries.contains(before_cleanup.entries[j]));
                let w = choose|w: int|
                    0 <= w < cat@.entries.len() && cat@.entries[w]
                        == before_cleanup.entries[j];
                assert(cat@.entries[w].playlist_id == playlist_id);
            }
        }
    }
    r
}

/// Model of one saved-album step: upsert the first listed artist, then the
/// album with provenance `SavedAlbum`.
pub open spec fn spec_sync_one_saved_album(m: CatalogModel, ab: SpotifyAlbum, now: u64) -> CatalogModel {
    let (m1, artist_id) = spec_upsert_artist(m, ab.artists[0], now);
    spec_upsert_album(m1, ab, artist_id, AlbumSource::SavedAlbum, now).0
}

/// Model of the whole saved-albums phase: the steps folded in fetch order.
pub open spec fn spec_sync_saved_albums(m: CatalogModel, items: Seq<SpotifyAlbum>, now: u64) -> CatalogModel
    decreases items.len(),
{
    if items.len() == 0 {
        m
    } else {
        spec_sync_saved_albums(spec_sync_one_saved_album(m, items[0], now), items.drop_first(), now)
    }
}

/// An artist row with external id `sid` exists.
pub open spec fn artist_present(m: CatalogModel, sid: Seq<char>) -> bool {
    spec_find_artist(m.artists, sid) is Some
}

/// An album row with external id `sid` exists.
pub open spec fn album_present(m: CatalogModel, sid: Seq<char>) -> bool {
    spec_find_album(m.albums, sid) is Some
}

/// Folding from the front: processing `items.push(x)` is processing `items`,
/// then one step on `x`.
pub proof fn lemma_sync_saved_albums_snoc(
    m: CatalogModel,
    items: Seq<SpotifyAlbum>,
    x: SpotifyAlbum,
    now: u64,
)
    ensures
        spec_sync_saved_albums(m, items.push(x), now) == spec_sync_one_saved_album(
            spec_sync_saved_albums(m, items, now),
            x,
            now,
        ),
    decreases items.len(),
{
    if items.len() == 0 {
        assert(items.push(x)[0] == x);
        assert(items.push(x).drop_first() =~= Seq::<SpotifyAlbum>::empty());
        assert(spec_sync_saved_albums(m, items.push(x), now) == spec_sync_saved_albums(
            spec_sync_one_saved_album(m, x, now),
            Seq::<SpotifyAlbum>::empty(),
            now,
        ));
        assert(spec_sync_saved_albums(spec_sync_one_saved_album(m, x, now), Seq::<SpotifyAlbum>::empty(), now)
            == spec_sync_one_saved_album(m, x, now));
        assert(spec_sync_saved_albums(m, items, now) == m);
    } else {
        assert(items.push(x)[0] == items[0]);
        assert(items.push(x).drop_first() =~= items.drop_first().push(x));
        lemma_sync_saved_albums_snoc(
            spec_sync_one_saved_album(m, items[0], now),
            items.drop_first(),
            x,
            now,
        );
    }
}

/// One saved-album step never removes rows, so existing external ids stay
/// present.
pub proof fn lemma_step_preserves_presence(
    m: CatalogModel,
    ab: SpotifyAlbum,
    now: u64,
    a_sid: Seq<char>,
    b_sid: Seq<char>,
)
    ensures
        artist_present(m, a_sid) ==> artist_present(spec_sync_one_saved_album(m, ab, now), a_sid),
        album_present(m, b_sid) ==> album_present(spec_sync_one_saved_album(m, ab, now), b_sid),
{
    lemma_find_artist_push(m.artists, a_sid, spec_new_artist(m.artists.len() as u64, ab.artists[0], now), 0);
    let m1 = spec_upsert_artist(m, ab.artists[0], now).0;
    let artist_id = spec_upsert_artist(m, ab.artists[0], now).1;
    lemma_find_album_push(
        m1.albums,
        b_sid,
        spec_new_album(m1.albums.len() as u64, artist_id, ab, AlbumSource::SavedAlbum, now),
        0,
    );
}

/// After one saved-album step, that album's artist and the album itself are
/// present.
pub proof fn lemma_step_establishes_presence(m: CatalogModel, ab: SpotifyAlbum, now: u64)
    ensures
        artist_present(spec_sync_one_saved_album(m, ab, now), ab.artists[0].id@),
        album_present(spec_sync_one_saved_album(m, ab, now), ab.id@),
{
    lemma_find_artist_push(
        m.artists,
        ab.artists[0].id@,
        spec_new_artist(m.artists.len() as u64, ab.artists[0], now),
        0,
    );
    let m1 = spec_upsert_artist(m, ab.artists[0], now).0;
    let artist_id = spec_upsert_artist(m, ab.artists[0], now).1;
    lemma_find_album_push(
        m1.albums,
        ab.id@,
        spec_new_album(m1.albums.len() as u64, artist_id, ab, AlbumSource::SavedAlbum, now),
        0,
    );
}

/// The whole phase never removes rows either.
pub proof fn lemma_sync_preserves_presence(
    m: CatalogModel,
    items: Seq<SpotifyAlbum>,
    now: u64,
    a_sid: Seq<char>,
    b_sid: Seq<char>,
)
    ensures
        artist_present(m, a_sid) ==> artist_present(
            spec_sync_saved_albums(m, items, now),
            a_sid,
        ),
        album_present(m, b_sid) ==> album_present(spec_sync_saved_albums(m, items, now), b_sid),
    decreases items.len(),
{
    if items.len() > 0 {
        lemma_step_preserves_presence(m, items[0], now, a_sid, b_sid);
        lemma_sync_preserves_presence(
            spec_sync_one_saved_album(m, items[0], now),
            items.drop_first(),
            now,
            a_sid,
            b_sid,
        );
    }
}

/// After the whole phase, every fetched album and its first artist are
/// present.
pub proof fn lemma_sync_establishes_presence(m: CatalogModel, items: Seq<SpotifyAlbum>, now: u64)
    ensures
        forall|j: int|
            0 <= j < items.len() ==> artist_present(
                spec_sync_saved_albums(m, items, now),
                (#[trigger] items[j]).artists[0].id@,
            ) && album_present(spec_sync_saved_albums(m, items, now), items[j].id@),
    decreases items.len(),
{
    if items.len() > 0 {
        let m1 = spec_sync_one_saved_album(m, items[0], now);
        lemma_step_establishes_presence(m, items[0], now);
        lemma_sync_preserves_presence(
            m1,
            items.drop_first(),
            now,
            items[0].artists[0].id@,
            items[0].id@,
        );
        lemma_sync_establishes_presence(m1, items.drop_first(), now);
        assert forall|j: int| 1 <= j < items.len() implies artist_present(
            spec_sync_saved_albums(m, items, now),
            (#[trigger] items[j]).artists[0].id@,
        ) && album_present(spec_sync_saved_albums(m, items, now), items[j].id@) by {
            assert(items.drop_first()[j - 1] == items[j]);
        }
    }
}

/// A step on an album whose artist and album rows are already present changes
/// nothing.
pub proof fn lemma_step_identity_when_present(m: CatalogModel, ab: SpotifyAlbum, now: u64)
    requires
        artist_present(m, ab.artists[0].id@),
        album_present(m, ab.id@),
    ensures
        spec_sync_one_saved_album(m, ab, now) == m,
{
}

/// Upsert idempotence: running the saved-albums phase a second time over
/// unchanged fetched data — at any later time — leaves the catalog exactly as
/// the first run left it: no duplicate artist or album rows, no changed keys.
pub proof fn lemma_library_sync_idempotent(
    m: CatalogModel,
    items: Seq<SpotifyAlbum>,
    now1: u64,
    now2: u64,
)
    ensures
        spec_sync_saved_albums(spec_sync_saved_albums(m, items, now1), items, now2)
            == spec_sync_saved_albums(m, items, now1),
{
    let r = spec_sync_saved_albums(m, items, now1);
    lemma_sync_establishes_presence(m, items, now1);
    lemma_sync_fixpoint_when_present(r, items, now2);
}

/// Folding over items that are all present already changes nothing.
pub proof fn lemma_sync_fixpoint_when_present(m: CatalogModel, items: Seq<SpotifyAlbum>, now: u64)
    requires
        forall|j: int|
            0 <= j < items.len() ==> artist_present(m, (#[trigger] items[j]).artists[0].id@)
                && album_present(m, items[j].id@),
    ensures
        spec_sync_saved_albums(m, items, now) == m,
    decreases items.len(),
{
    if items.len() > 0 {
        lemma_step_identity_when_present(m, items[0], now);
        assert forall|j: int| 0 <= j < items.drop_first().len() implies artist_present(
            m,
            (#[trigger] items.drop_first()[j]).artists[0].id@,
        ) && album_present(m, items.drop_first()[j].id@) by {
            assert(items.drop_first()[j] == items[j + 1]);
        }
        lemma_sync_fixpoint_when_present(m, items.drop_first(), now);
    }
}

/// Pull phase one of Library Sync: upsert the first listed artist and then
/// the album, in fetch order, for every saved album. Existing rows are left
/// untouched; new albums start `NotOwned` and `Pending`.
pub fn sync_saved_albums(cat: &mut Catalog, albums: Vec<SpotifyAlbum>, now: u64)
    requires
        old(cat).wf(),
        forall|i: int| 0 <= i < albums@.len() ==> (#[trigger] albums@[i]).artists@.len() >= 1,
        old(cat)@.artists.len() + albums@.len() <= u64::MAX,
        old(cat)@.albums.len() + albums@.len() <= u64::MAX,
    ensures
        final(cat).wf(),
        final(cat)@ == spec_sync_saved_albums(old(cat)@, albums@, now),
{
    let ghost orig = albums@;
    let ghost m0 = old(cat)@;
    let mut albums = albums;
    while albums.len() > 0
        invariant
            cat.wf(),
            albums@.len() <= orig.len(),
            albums@ =~= orig.skip(orig.len() - albums@.len()),
            forall|i: int| 0 <= i < orig.len() ==> (#[trigger] orig[i]).artists@.len() >= 1,
            cat@ == spec_sync_saved_albums(m0, orig.take(orig.len() - albums@.len()), now),
            cat@.artists.len() + albums@.len() <= u64::MAX,
            cat@.albums.len() + albums@.len() <= u64::MAX,
        decreases albums@.len(),
    {
        let ghost k = orig.len() - albums@.len();
        let ghost pre = cat@;
        let item = albums.remove(0);
        proof {
            assert(item == orig[k]);
            assert(albums@ =~= orig.skip(k + 1));
        }
        let artist_id = upsert_artist(cat, &item.artists[0], now);
        upsert_album(cat, item, artist_id, AlbumSource::SavedAlbum, now);
        proof {
            assert(cat@ == spec_sync_one_saved_album(pre, orig[k], now));
            assert(orig.take(k + 1).drop_last() =~= orig.take(k));
            assert(orig.take(k + 1).last() == orig[k]);
            assert(orig.take(k + 1) =~= orig.take(k).push(orig[k]));
            lemma_sync_saved_albums_snoc(m0, orig.take(k), orig[k], now);
        }
    }
    proof {
        assert(orig.take(orig.len() as int) =~= orig);
    }
}


/// The fixed sentinel external id of the synthetic liked-songs playlist,
/// which has no real external id.
pub fn liked_songs_spotify_id() -> (r: &'static str)
    ensures
        r@ == spec_liked_songs_spotify_id(),
{
    "__LIKED_SONGS__"
}

/// View of the liked-songs sentinel id.
pub open spec fn spec_liked_songs_spotify_id() -> Seq<char> {
    "__LIKED_SONGS__"@
}

/// Display name of the synthetic liked-songs playlist.
pub fn liked_songs_name() -> (r: &'static str)
    ensures
        r@ == "Liked Songs"@,
{
    "Liked Songs"
}

/// The snapshot value of a fetched liked-songs track list: the lower-case
/// hex SHA-256 digest of the syncable track ids, sorted and delimited.
pub open spec fn spec_tracks_hash(items: Seq<SpotifyPlaylistTrack>) -> Seq<char> {
    spec_to_hex_lower(sha256_of(spec_joined_ids(spec_sort_seqs(valid_sids(items)))))
}

/// Hash a fetched track list for change detection. Sorting first makes the
/// value independent of pagination order.
pub fn compute_tracks_hash(tracks: &Vec<SpotifyPlaylistTrack>) -> (r: String)
    ensures
        r@ == spec_tracks_hash(tracks@),
{
    let mut ids: Vec<String> = Vec::new();
    let n = tracks.len();
    proof {
        assert(tracks@.skip(0) =~= tracks@);
        assert(ids.deep_view() + valid_sids(tracks@) =~= valid_sids(tracks@));
    }
    for i in 0..n
        invariant
            n == tracks@.len(),
            ids.deep_view() + valid_sids(tracks@.skip(i as int)) =~= valid_sids(tracks@),
    {
        proof {
            assert(tracks@.skip(i as int)[0] == tracks@[i as int]);
            assert(tracks@.skip(i as int).drop_first() =~= tracks@.skip(i + 1));
        }
        let ghost dv0 = ids.deep_view();
        match &tracks[i].track {
            Some(t) => {
                match &t.id {
                    Some(s) => {
                        let c = s.clone();
                        ids.push(c);
                        proof {
                            assert forall|j: int|
                                0 <= j < ids.deep_view().len() implies ids.deep_view()[j]
                                == dv0.push(s@)[j] by {
                                assert(ids.deep_view()[j] == ids@[j]@);
                            }
                            assert(ids.deep_view() =~= dv0.push(s@));
                            assert(ids.deep_view() + valid_sids(tracks@.skip(i + 1))
                                =~= valid_sids(tracks@));
                        }
                    },
                    None => {
                        proof {
                            assert(!is_valid_item(tracks@[i as int]));
                        }
                    },
                }
            },
            None => {
                proof {
                    assert(!is_valid_item(tracks@[i as int]));
                }
            },
        }
    }
    proof {
        assert(tracks@.skip(n as int) =~= Seq::<SpotifyPlaylistTrack>::empty());
        assert(ids.deep_view() =~= valid_sids(tracks@));
    }
    let sorted = sort_strings(ids);
    let joined = joined_bytes(&sorted);
    let digest = sha256_digest(joined.as_slice());
    to_hex_lower(&digest)
}

/// Whether a playlist's tracks must be fetched again: its stored snapshot
/// token differs from the fresh one, or it has never been synced.
pub open spec fn spec_needs_track_sync(p: Playlist, snapshot: Seq<char>) -> bool {
    !(p.snapshot_id is Some && p.snapshot_id->0@ == snapshot) || p.last_synced_at is None
}

/// Change detection for one playlist (or the liked-songs hash).
pub fn playlist_needs_track_sync(p: &Playlist, snapshot: &str) -> (r: bool)
    ensures
        r == spec_needs_track_sync(*p, snapshot@),
{
    let unchanged = match &p.snapshot_id {
        Some(s) => str_eq(s.as_str(), snapshot),
        None => false,
    };
    !unchanged || p.last_synced_at.is_none()
}

/// Record a completed track sync: store the snapshot token and stamp the
/// sync time. Nothing else in the catalog moves.
pub fn finish_playlist_sync(cat: &mut Catalog, playlist_id: u64, snapshot: String, now: u64)
    requires
        old(cat).wf(),
        playlist_id < old(cat)@.playlists.len(),
    ensures
        final(cat).wf(),
        final(cat)@ == (CatalogModel {
            playlists: old(cat)@.playlists.update(
                playlist_id as int,
                Playlist {
                    snapshot_id: Some(snapshot),
                    last_synced_at: Some(now),
                    updated_at: now,
                    ..old(cat)@.playlists[playlist_id as int]
                },
            ),
            ..old(cat)@
        }),
{
    let n = cat.playlists.len();
    let i = playlist_id as usize;
    proof {
        assert(i as int == playlist_id as int);
    }
    let row = &cat.playlists[i];
    let ghost snapv = snapshot;
    let updated = Playlist {
        id: row.id,
        name: row.name.clone(),
        spotify_id: row.spotify_id.clone(),
        description: clone_opt_string(&row.description),
        owner_name: clone_opt_string(&row.owner_name),
        is_collaborative: row.is_collaborative,
        total_tracks: row.total_tracks,
        cover_image_url: clone_opt_string(&row.cover_image_url),
        snapshot_id: Some(snapshot),
        is_enabled: row.is_enabled,
        is_synthetic: row.is_synthetic,
        owned_count: row.owned_count,
        created_at: row.created_at,
        updated_at: now,
        last_synced_at: Some(now),
    };
    let ghost m0 = cat@;
    cat.playlists.set(i, updated);
    proof {
        assert(updated == Playlist {
            snapshot_id: Some(snapv),
            last_synced_at: Some(now),
            updated_at: now,
            ..m0.playlists[playlist_id as int]
        });
        assert(cat@.playlists =~= m0.playlists.update(
            playlist_id as int,
            Playlist {
                snapshot_id: Some(snapv),
                last_synced_at: Some(now),
                updated_at: now,
                ..m0.playlists[playlist_id as int]
            },
        ));
        assert(cat@ =~= (CatalogModel {
            playlists: m0.playlists.update(
                playlist_id as int,
                Playlist {
                    snapshot_id: Some(snapv),
                    last_synced_at: Some(now),
                    updated_at: now,
                    ..m0.playlists[playlist_id as int]
                },
            ),
            ..m0
        }));
        assert forall|a: int, b: int| 0 <= a < b < cat@.playlists.len() implies (
        #[trigger] cat@.playlists[a]).spotify_id@ != (#[trigger] cat@.playlists[b]).spotify_id@ by {
            assert(m0.wf());
            assert(cat@.playlists[a].spotify_id@ == m0.playlists[a].spotify_id@);
            assert(cat@.playlists[b].spotify_id@ == m0.playlists[b].spotify_id@);
        }
    }
}

/// Sync one real playlist: refresh its metadata, and when it is enabled and
/// its snapshot token says its content changed, reconcile its membership
/// rows against the fetched track list and store the new token.
///
/// When the snapshot token is unchanged (and the playlist has been synced
/// before), or the playlist is disabled, no track-level work happens at all:
/// the catalog is exactly what the metadata refresh alone leaves.
pub fn sync_one_playlist(
    cat: &mut Catalog,
    pl: SpotifyPlaylist,
    tracks: Vec<SpotifyPlaylistTrack>,
    now: u64,
)
    requires
        old(cat).wf(),
        old(cat)@.playlists.len() < u64::MAX,
        tracks@.len() <= u32::MAX,
        old(cat)@.artists.len() + tracks@.len() <= u64::MAX,
        old(cat)@.albums.len() + tracks@.len() <= u64::MAX,
        old(cat)@.tracks.len() + tracks@.len() <= u64::MAX,
        old(cat)@.next_entry_id + tracks@.len() <= u64::MAX,
        forall|i: int|
            0 <= i < tracks@.len() && is_valid_item(#[trigger] tracks@[i])
                ==> tracks@[i].track->0.artists@.len() >= 1,
    ensures
        final(cat).wf(),
        ({
            let (m1, pid) = spec_upsert_playlist(old(cat)@, pl, now);
            // change-detection skip: disabled, or token unchanged on an
            // already-synced playlist, means the metadata refresh is all
            // that happens
            &&& (!m1.playlists[pid as int].is_enabled || !spec_needs_track_sync(
                m1.playlists[pid as int],
                pl.snapshot_id@,
            )) ==> final(cat)@ == m1
            // memberships of every other playlist are untouched
            &&& forall|p: u64, t: u64|
                p != pid ==> (entry_pair_present(final(cat)@.entries, p, t)
                    <==> entry_pair_present(old(cat)@.entries, p, t))
            // rows of the other entity kinds are never removed or rewritten
            &&& final(cat)@.artists.len() >= old(cat)@.artists.len()
            &&& final(cat)@.albums.len() >= old(cat)@.albums.len()
            &&& final(cat)@.tracks.len() >= old(cat)@.tracks.len()
            &&& final(cat)@.artists.len() <= old(cat)@.artists.len() + tracks@.len()
            &&& final(cat)@.albums.len() <= old(cat)@.albums.len() + tracks@.len()
            &&& final(cat)@.tracks.len() <= old(cat)@.tracks.len() + tracks@.len()
            &&& final(cat)@.next_entry_id <= old(cat)@.next_entry_id + tracks@.len()
            &&& final(cat)@.playlists.len() <= old(cat)@.playlists.len() + 1
            &&& final(cat)@.playlists.len() >= old(cat)@.playlists.len()
            // playlist rows keep their external ids, and this playlist's row
            // exists afterwards
            &&& forall|j: int|
                0 <= j < old(cat)@.playlists.len() ==> (#[trigger] final(cat)@.playlists[j]).spotify_id
                    == old(cat)@.playlists[j].spotify_id
            &&& spec_find_playlist(final(cat)@.playlists, pl.id@) is Some
            &&& forall|i: int|
                0 <= i < old(cat)@.artists.len() ==> final(cat)@.artists[i] == old(
                    cat,
                )@.artists[i]
            &&& forall|i: int|
                0 <= i < old(cat)@.albums.len() ==> final(cat)@.albums[i] == old(cat)@.albums[i]
            &&& forall|i: int|
                0 <= i < old(cat)@.tracks.len() ==> final(cat)@.tracks[i] == old(cat)@.tracks[i]
            // after a real sync the new token and sync time are stored
            &&& (m1.playlists[pid as int].is_enabled && spec_needs_track_sync(
                m1.playlists[pid as int],
                pl.snapshot_id@,
            )) ==> final(cat)@.playlists[pid as int].snapshot_id == Some(pl.snapshot_id)
                && final(cat)@.playlists[pid as int].last_synced_at == Some(now)
        }),
{
    let snap = pl.snapshot_id.clone();
    let ghost m0 = cat@;
    let pid = upsert_playlist(cat, pl, now);
    proof {
        assert(cat@ == spec_upsert_playlist(m0, pl, now).0);
        assert(cat@.playlists.len() <= m0.playlists.len() + 1 && cat@.playlists.len()
            >= m0.playlists.len()) by {
            match spec_find_playlist(m0.playlists, pl.id@) {
                Some(i) => {
                    crate::catalog::lemma_find_playlist_some(m0.playlists, pl.id@, 0);
                    assert(cat@.playlists == m0.playlists.update(
                        i,
                        spec_updated_playlist(m0.playlists[i], pl, now),
                    ));
                    assert(cat@.playlists.len() == m0.playlists.len());
                },
                None => {
                    assert(cat@.playlists.len() == m0.playlists.len() + 1);
                },
            }
        }
        assert forall|j: int| 0 <= j < m0.playlists.len() implies (
        #[trigger] cat@.playlists[j]).spotify_id == m0.playlists[j].spotify_id by {
            match spec_find_playlist(m0.playlists, pl.id@) {
                Some(i) => {
                    crate::catalog::lemma_find_playlist_some(m0.playlists, pl.id@, 0);
                    assert(cat@.playlists == m0.playlists.update(
                        i,
                        spec_updated_playlist(m0.playlists[i], pl, now),
                    ));
                },
                None => {},
            }
        }
        crate::catalog::lemma_find_playlist_witness(cat@.playlists, pl.id@, pid as int);
        assert(cat@.entries == m0.entries);
        assert(cat@.artists == m0.artists);
        assert(cat@.albums == m0.albums);
        assert(cat@.tracks == m0.tracks);
    }
    let n = cat.playlists.len();
    proof {
        assert(pid < n as u64);
    }
    let i = pid as usize;
    proof {
        assert(i as int == pid as int);
    }
    let enabled = cat.playlists[i].is_enabled;
    if !enabled {
        return ;
    }
    let needs = playlist_needs_track_sync(&cat.playlists[i], snap.as_str());
    proof {
        assert(needs == spec_needs_track_sync(cat@.playlists[pid as int], pl.snapshot_id@));
    }
    if !needs {
        return ;
    }
    let ghost m1 = cat@;
    let _keys = sync_playlist_tracks(cat, pid, tracks, now);
    proof {
        assert(cat@.playlists == m1.playlists);
    }
    let ghost m2 = cat@;
    let ghost snapv = snap;
    finish_playlist_sync(cat, pid, snap, now);
    proof {
        assert(snapv == pl.snapshot_id);
        assert(cat@.playlists == m2.playlists.update(
            pid as int,
            Playlist {
                snapshot_id: Some(snapv),
                last_synced_at: Some(now),
                updated_at: now,
                ..m2.playlists[pid as int]
            },
        ));
        assert(cat@.playlists[pid as int].snapshot_id == Some(pl.snapshot_id));
        assert(cat@.playlists[pid as int].last_synced_at == Some(now));
        assert(cat@.entries == m2.entries);
        assert(cat@.artists == m2.artists);
        assert(cat@.albums == m2.albums);
        assert(cat@.tracks == m2.tracks);
        assert forall|p: u64, t: u64| p != pid implies (entry_pair_present(cat@.entries, p, t)
            <==> entry_pair_present(m0.entries, p, t)) by {
            assert(entry_pair_present(m2.entries, p, t) <==> entry_pair_present(m1.entries, p, t));
        }
        assert forall|j: int| 0 <= j < m0.playlists.len() implies (
        #[trigger] cat@.playlists[j]).spotify_id == m0.playlists[j].spotify_id by {
            assert(m2.playlists[j].spotify_id == m0.playlists[j].spotify_id);
        }
        assert(cat@.playlists[pid as int].spotify_id == m2.playlists[pid as int].spotify_id);
        assert(cat@.playlists[pid as int].spotify_id@ == pl.id@);
        crate::catalog::lemma_find_playlist_witness(cat@.playlists, pl.id@, pid as int);
    }
}


/// The fresh liked-songs row created on first sync: synthetic, disabled by
/// default, no snapshot yet.
pub open spec fn is_new_liked_songs_row(p: Playlist, id: u64, total_tracks: i32, now: u64) -> bool {
    &&& p.id == id
    &&& p.name@ == "Liked Songs"@
    &&& p.spotify_id@ == spec_liked_songs_spotify_id()
    &&& p.description matches Some(d) && d@ == "Your liked songs from Spotify"@
    &&& p.owner_name is None
    &&& p.is_collaborative == false
    &&& p.total_tracks == Some(total_tracks)
    &&& p.cover_image_url is None
    &&& p.snapshot_id is None
    &&& p.is_enabled == false
    &&& p.is_synthetic == true
    &&& p.owned_count is None
    &&& p.created_at == now
    &&& p.updated_at == now
    &&& p.last_synced_at is None
}

/// Upsert the synthetic liked-songs playlist under its sentinel id: an
/// existing row gets the fresh track count, a missing one is created.
pub fn upsert_liked_songs_playlist(cat: &mut Catalog, total_tracks: i32, now: u64) -> (r: u64)
    requires
        old(cat).wf(),
        old(cat)@.playlists.len() < u64::MAX,
    ensures
        final(cat).wf(),
        r < final(cat)@.playlists.len(),
        final(cat)@.playlists[r as int].spotify_id@ == spec_liked_songs_spotify_id(),
        match spec_find_playlist(old(cat)@.playlists, spec_liked_songs_spotify_id()) {
            Some(i) => r == i && final(cat)@ == (CatalogModel {
                playlists: old(cat)@.playlists.update(
                    i,
                    Playlist {
                        total_tracks: Some(total_tracks),
                        updated_at: now,
                        ..old(cat)@.playlists[i]
                    },
                ),
                ..old(cat)@
            }),
            None => {
                &&& r == old(cat)@.playlists.len()
                &&& final(cat)@.playlists.len() == old(cat)@.playlists.len() + 1
                &&& forall|j: int|
                    0 <= j < old(cat)@.playlists.len() ==> final(cat)@.playlists[j] == old(
                        cat,
                    )@.playlists[j]
                &&& is_new_liked_songs_row(
                    final(cat)@.playlists[r as int],
                    r,
                    total_tracks,
                    now,
                )
                &&& final(cat)@.artists == old(cat)@.artists
                &&& final(cat)@.albums == old(cat)@.albums
                &&& final(cat)@.tracks == old(cat)@.tracks
                &&& final(cat)@.entries == old(cat)@.entries
                &&& final(cat)@.downloads == old(cat)@.downloads
                &&& final(cat)@.next_entry_id == old(cat)@.next_entry_id
                &&& final(cat)@.next_download_id == old(cat)@.next_download_id
            },
        },
{
    let found = cat.find_playlist_by_spotify_id(liked_songs_spotify_id());
    match found {
        Some(i) => {
            let row = &cat.playlists[i];
            let updated = Playlist {
                id: row.id,
                name: row.name.clone(),
                spotify_id: row.spotify_id.clone(),
                description: clone_opt_string(&row.description),
                owner_name: clone_opt_string(&row.owner_name),
                is_collaborative: row.is_collaborative,
                total_tracks: Some(total_tracks),
                cover_image_url: clone_opt_string(&row.cover_image_url),
                snapshot_id: clone_opt_string(&row.snapshot_id),
                is_enabled: row.is_enabled,
                is_synthetic: row.is_synthetic,
                owned_count: row.owned_count,
                created_at: row.created_at,
                updated_at: now,
                last_synced_at: row.last_synced_at,
            };
            let ghost m0 = cat@;
            cat.playlists.set(i, updated);
            proof {
                assert(updated == Playlist {
                    total_tracks: Some(total_tracks),
                    updated_at: now,
                    ..m0.playlists[i as int]
                });
                assert(cat@.playlists =~= m0.playlists.update(
                    i as int,
                    Playlist {
                        total_tracks: Some(total_tracks),
                        updated_at: now,
                        ..m0.playlists[i as int]
                    },
                ));
                assert(cat@ =~= (CatalogModel {
                    playlists: m0.playlists.update(
                        i as int,
                        Playlist {
                            total_tracks: Some(total_tracks),
                            updated_at: now,
                            ..m0.playlists[i as int]
                        },
                    ),
                    ..m0
                }));
                assert(m0.playlists[i as int].id == i as u64);
                assert forall|a: int, b: int| 0 <= a < b < cat@.playlists.len() implies (
                #[trigger] cat@.playlists[a]).spotify_id@ != (
                #[trigger] cat@.playlists[b]).spotify_id@ by {
                    assert(m0.wf());
                    assert(cat@.playlists[a].spotify_id@ == m0.playlists[a].spotify_id@);
                    assert(cat@.playlists[b].spotify_id@ == m0.playlists[b].spotify_id@);
                }
            }
            i as u64
        },
        None => {
            let id: u64 = cat.playlists.len() as u64;
            let row = Playlist {
                id,
                name: liked_songs_name().to_owned(),
                spotify_id: liked_songs_spotify_id().to_owned(),
                description: Some("Your liked songs from Spotify".to_owned()),
                owner_name: None,
                is_collaborative: false,
                total_tracks: Some(total_tracks),
                cover_image_url: None,
                snapshot_id: None,
                is_enabled: false,
                is_synthetic: true,
                owned_count: None,
                created_at: now,
                updated_at: now,
                last_synced_at: None,
            };
            proof {
                lemma_find_playlist_none(cat@.playlists, spec_liked_songs_spotify_id(), 0);
            }
            let ghost m0 = cat@;
            cat.playlists.push(row);
            proof {
                assert forall|a: int, b: int| 0 <= a < b < cat@.playlists.len() implies (
                #[trigger] cat@.playlists[a]).spotify_id@ != (
                #[trigger] cat@.playlists[b]).spotify_id@ by {
                    if b < m0.playlists.len() {
                        assert(m0.wf());
                    } else {
                        assert(m0.playlists[a].spotify_id@ != spec_liked_songs_spotify_id());
                    }
                }
            }
            id
        },
    }
}

/// Sync the liked-songs collection as a synthetic playlist. The fetched
/// track list is hashed (sorted ids) for change detection, since this
/// collection has no server-side snapshot token; an unchanged hash on an
/// already-synced, enabled row means no track-level work happens at all.
pub fn sync_liked_songs(
    cat: &mut Catalog,
    total_tracks: i32,
    items: Vec<SpotifyPlaylistTrack>,
    now: u64,
)
    requires
        old(cat).wf(),
        old(cat)@.playlists.len() < u64::MAX,
        items@.len() <= u32::MAX,
        old(cat)@.artists.len() + items@.len() <= u64::MAX,
        old(cat)@.albums.len() + items@.len() <= u64::MAX,
        old(cat)@.tracks.len() + items@.len() <= u64::MAX,
        old(cat)@.next_entry_id + items@.len() <= u64::MAX,
        forall|i: int|
            0 <= i < items@.len() && is_valid_item(#[trigger] items@[i])
                ==> items@[i].track->0.artists@.len() >= 1,
    ensures
        final(cat).wf(),
        final(cat)@.artists.len() >= old(cat)@.artists.len(),
        final(cat)@.albums.len() >= old(cat)@.albums.len(),
        final(cat)@.tracks.len() >= old(cat)@.tracks.len(),
        final(cat)@.artists.len() <= old(cat)@.artists.len() + items@.len(),
        final(cat)@.albums.len() <= old(cat)@.albums.len() + items@.len(),
        final(cat)@.tracks.len() <= old(cat)@.tracks.len() + items@.len(),
        final(cat)@.next_entry_id <= old(cat)@.next_entry_id + items@.len(),
        final(cat)@.playlists.len() <= old(cat)@.playlists.len() + 1,
        final(cat)@.playlists.len() >= old(cat)@.playlists.len(),
        forall|j: int|
            0 <= j < old(cat)@.playlists.len() ==> (#[trigger] final(cat)@.playlists[j]).spotify_id
                == old(cat)@.playlists[j].spotify_id,
        spec_find_playlist(final(cat)@.playlists, spec_liked_songs_spotify_id()) is Some,
        forall|i: int|
            0 <= i < old(cat)@.artists.len() ==> final(cat)@.artists[i] == old(cat)@.artists[i],
        forall|i: int|
            0 <= i < old(cat)@.albums.len() ==> final(cat)@.albums[i] == old(cat)@.albums[i],
        forall|i: int|
            0 <= i < old(cat)@.tracks.len() ==> final(cat)@.tracks[i] == old(cat)@.tracks[i],
        ({
            let pid = match spec_find_playlist(
                old(cat)@.playlists,
                spec_liked_songs_spotify_id(),
            ) {
                Some(i) => i as u64,
                None => old(cat)@.playlists.len() as u64,
            };
            // memberships of every other playlist are untouched
            forall|p: u64, t: u64|
                p != pid ==> (entry_pair_present(final(cat)@.entries, p, t)
                    <==> entry_pair_present(old(cat)@.entries, p, t))
        }),
        match spec_find_playlist(old(cat)@.playlists, spec_liked_songs_spotify_id()) {
            Some(i) => ({
                let m1 = CatalogModel {
                    playlists: old(cat)@.playlists.update(
                        i,
                        Playlist {
                            total_tracks: Some(total_tracks),
                            updated_at: now,
                            ..old(cat)@.playlists[i]
                        },
                    ),
                    ..old(cat)@
                };
                let row1 = m1.playlists[i];
                // change-detection skip: a disabled row, or an unchanged
                // content hash on an already-synced row, leaves the catalog
                // exactly what the metadata refresh alone makes it — the
                // snapshot token and sync time included
                &&& (!row1.is_enabled || !spec_needs_track_sync(
                    row1,
                    spec_tracks_hash(items@),
                )) ==> final(cat)@ == m1
                // a due sync stores the fresh content hash and sync time and
                // reconciles the memberships against the fetched list
                &&& (row1.is_enabled && spec_needs_track_sync(row1, spec_tracks_hash(items@)))
                    ==> {
                    &&& (final(cat)@.playlists[i].snapshot_id matches Some(s) && s@
                        == spec_tracks_hash(items@))
                    &&& final(cat)@.playlists[i].last_synced_at == Some(now)
                    &&& final(cat)@.playlists[i].total_tracks == Some(total_tracks)
                    &&& forall|t: u64|
                        entry_pair_present(final(cat)@.entries, i as u64, t)
                            ==> t < final(cat)@.tracks.len()
                            && opt_sv(final(cat)@.tracks[t as int].spotify_id) is Some
                            && valid_sids(items@).contains(
                            opt_sv(final(cat)@.tracks[t as int].spotify_id)->0,
                        )
                    &&& forall|k: int|
                        0 <= k < valid_sids(items@).len() ==> #[trigger] member_with_external_id(
                            final(cat)@,
                            i as u64,
                            valid_sids(items@)[k],
                        )
                }
            }),
            None => {
                // first sync fabricates the synthetic row, disabled by
                // default, so no track-level work happens
                &&& final(cat)@.playlists.len() == old(cat)@.playlists.len() + 1
                &&& forall|j: int|
                    0 <= j < old(cat)@.playlists.len() ==> final(cat)@.playlists[j] == old(
                        cat,
                    )@.playlists[j]
                &&& is_new_liked_songs_row(
                    final(cat)@.playlists[old(cat)@.playlists.len() as int],
                    old(cat)@.playlists.len() as u64,
                    total_tracks,
                    now,
                )
                &&& final(cat)@.entries == old(cat)@.entries
                &&& final(cat)@.tracks == old(cat)@.tracks
                &&& final(cat)@.artists == old(cat)@.artists
                &&& final(cat)@.albums == old(cat)@.albums
                &&& final(cat)@.downloads == old(cat)@.downloads
                &&& final(cat)@.next_entry_id == old(cat)@.next_entry_id
                &&& final(cat)@.next_download_id == old(cat)@.next_download_id
            },
        },
{
    let ghost m0 = cat@;
    let pid = upsert_liked_songs_playlist(cat, total_tracks, now);
    proof {
        assert(cat@.entries == m0.entries);
        assert(cat@.artists == m0.artists);
        assert(cat@.albums == m0.albums);
        assert(cat@.tracks == m0.tracks);
        assert(cat@.next_entry_id == m0.next_entry_id);
        if spec_find_playlist(m0.playlists, spec_liked_songs_spotify_id()) is Some {
            let i = spec_find_playlist(m0.playlists, spec_liked_songs_spotify_id())->0;
            crate::catalog::lemma_find_playlist_some(
                m0.playlists,
                spec_liked_songs_spotify_id(),
                0,
            );
            assert(0 <= i < m0.playlists.len());
            assert(cat@.playlists[i].is_enabled == m0.playlists[i].is_enabled);
            assert(cat@.playlists[i].snapshot_id == m0.playlists[i].snapshot_id);
            assert(cat@.playlists[i].last_synced_at == m0.playlists[i].last_synced_at);
            assert(cat@.playlists == m0.playlists.update(
                i,
                Playlist {
                    total_tracks: Some(total_tracks),
                    updated_at: now,
                    ..m0.playlists[i]
                },
            ));
        }
        assert forall|j: int| 0 <= j < m0.playlists.len() implies (
        #[trigger] cat@.playlists[j]).spotify_id == m0.playlists[j].spotify_id by {}
        crate::catalog::lemma_find_playlist_witness(
            cat@.playlists,
            spec_liked_songs_spotify_id(),
            pid as int,
        );
    }
    let n = cat.playlists.len();
    proof {
        assert(pid < n as u64);
    }
    let i = pid as usize;
    proof {
        assert(i as int == pid as int);
    }
    let enabled = cat.playlists[i].is_enabled;
    if !enabled {
        return ;
    }
    let new_snapshot = compute_tracks_hash(&items);
    let needs = playlist_needs_track_sync(&cat.playlists[i], new_snapshot.as_str());
    if !needs {
        return ;
    }
    let ghost m1 = cat@;
    let keys = sync_playlist_tracks(cat, pid, items, now);
    proof {
        assert(cat@.playlists == m1.playlists);
    }
    let ghost m2 = cat@;
    let ghost snapv = new_snapshot;
    finish_playlist_sync(cat, pid, new_snapshot, now);
    proof {
        assert(cat@.entries == m2.entries);
        assert(cat@.artists == m2.artists);
        assert(cat@.albums == m2.albums);
        assert(cat@.tracks == m2.tracks);
        assert forall|p: u64, t: u64| p != pid implies (entry_pair_present(cat@.entries, p, t)
            <==> entry_pair_present(m0.entries, p, t)) by {
            assert(entry_pair_present(m2.entries, p, t) <==> entry_pair_present(m1.entries, p, t));
        }
        assert(cat@.playlists[pid as int].snapshot_id == Some(snapv));
        assert(cat@.playlists[pid as int].last_synced_at == Some(now));
        assert(cat@.playlists[pid as int].total_tracks == m1.playlists[pid as int].total_tracks);
        assert forall|j: int| 0 <= j < m0.playlists.len() implies (
        #[trigger] cat@.playlists[j]).spotify_id == m0.playlists[j].spotify_id by {
            assert(m2.playlists[j].spotify_id == m0.playlists[j].spotify_id);
        }
        assert(cat@.playlists[pid as int].spotify_id == m2.playlists[pid as int].spotify_id);
        assert(cat@.playlists[pid as int].spotify_id@ == spec_liked_songs_spotify_id());
        crate::catalog::lemma_find_playlist_witness(
            cat@.playlists,
            spec_liked_songs_spotify_id(),
            pid as int,
        );
        let sids = valid_sids(items@);
        assert forall|t: u64| entry_pair_present(cat@.entries, pid, t) implies t
            < cat@.tracks.len() && opt_sv(cat@.tracks[t as int].spotify_id) is Some
            && sids.contains(opt_sv(cat@.tracks[t as int].spotify_id)->0) by {
            assert(entry_pair_present(m2.entries, pid, t));
            assert(keys@.contains(t));
            let k = choose|k: int| 0 <= k < keys@.len() && keys@[k] == t;
            assert(opt_sv(m2.tracks[keys@[k] as int].spotify_id) == Some(sids[k]));
            assert(sids.contains(sids[k]));
        }
        assert forall|k: int| 0 <= k < sids.len() implies #[trigger] member_with_external_id(
            cat@,
            pid,
            sids[k],
        ) by {
            let t = keys@[k];
            assert(keys@.contains(t));
            assert(entry_pair_present(m2.entries, pid, t));
            assert(opt_sv(m2.tracks[t as int].spotify_id) == Some(sids[k]));
            assert(entry_pair_present(cat@.entries, pid, t) && t < cat@.tracks.len() && opt_sv(
                cat@.tracks[t as int].spotify_id,
            ) == Some(sids[k]));
        }
    }
}


/// One fetched playlist together with its fetched track list.
pub struct FetchedPlaylist {
    pub playlist: SpotifyPlaylist,
    pub tracks: Vec<SpotifyPlaylistTrack>,
}

/// Everything one Library Sync run works from, fetched up front by the
/// caller: the saved albums, the liked-songs collection, and each playlist
/// with its tracks. The caller may hand an empty track list for a playlist
/// whose snapshot token it already knows to be unchanged (see
/// [`playlist_needs_track_sync`]); the list is consulted only when a sync is
/// due.
pub struct SpotifyLibrary {
    pub saved_albums: Vec<SpotifyAlbum>,
    pub liked_total: i32,
    pub liked_tracks: Vec<SpotifyPlaylistTrack>,
    pub playlists: Vec<FetchedPlaylist>,
}

/// Total number of fetched playlist items across all playlists.
pub open spec fn total_playlist_items(ps: Seq<FetchedPlaylist>) -> int
    decreases ps.len(),
{
    if ps.len() == 0 {
        0
    } else {
        ps[0].tracks@.len() + total_playlist_items(ps.drop_first())
    }
}

/// Item counts are nonnegative, and every playlist's own count is bounded by
/// the total.
pub proof fn lemma_total_playlist_items_bounds(ps: Seq<FetchedPlaylist>)
    ensures
        total_playlist_items(ps) >= 0,
        ps.len() > 0 ==> ps[0].tracks@.len() <= total_playlist_items(ps),
        ps.len() > 0 ==> total_playlist_items(ps.drop_first()) <= total_playlist_items(ps),
    decreases ps.len(),
{
    if ps.len() > 0 {
        lemma_total_playlist_items_bounds(ps.drop_first());
    }
}

/// Run one Library Sync job over freshly fetched data: upsert the saved
/// albums, reconcile the synthetic liked-songs playlist, then each real
/// playlist in turn. Afterwards every saved album and its first listed
/// artist have a row in the catalog.
pub fn run_spotify_sync(cat: &mut Catalog, library: SpotifyLibrary, now: u64)
    requires
        old(cat).wf(),
        library.saved_albums@.len() <= u32::MAX,
        library.liked_tracks@.len() <= u32::MAX,
        forall|i: int|
            0 <= i < library.playlists@.len()
                ==> (#[trigger] library.playlists@[i]).tracks@.len() <= u32::MAX,
        old(cat)@.artists.len() + library.saved_albums@.len() + library.liked_tracks@.len()
            + total_playlist_items(library.playlists@) <= u64::MAX,
        old(cat)@.albums.len() + library.saved_albums@.len() + library.liked_tracks@.len()
            + total_playlist_items(library.playlists@) <= u64::MAX,
        old(cat)@.tracks.len() + library.liked_tracks@.len() + total_playlist_items(
            library.playlists@,
        ) <= u64::MAX,
        old(cat)@.next_entry_id + library.liked_tracks@.len() + total_playlist_items(
            library.playlists@,
        ) <= u64::MAX,
        old(cat)@.playlists.len() + 1 + library.playlists@.len() <= u64::MAX,
        forall|i: int|
            0 <= i < library.saved_albums@.len()
                ==> (#[trigger] library.saved_albums@[i]).artists@.len() >= 1,
        forall|i: int|
            0 <= i < library.liked_tracks@.len() && is_valid_item(#[trigger] library.liked_tracks@[i])
                ==> library.liked_tracks@[i].track->0.artists@.len() >= 1,
        forall|i: int, j: int|
            0 <= i < library.playlists@.len() && 0 <= j
                < library.playlists@[i].tracks@.len() && is_valid_item(
                #[trigger] library.playlists@[i].tracks@[j],
            ) ==> library.playlists@[i].tracks@[j].track->0.artists@.len() >= 1,
    ensures
        final(cat).wf(),
        // every fetched saved album and its first artist end present
        forall|k: int|
            0 <= k < library.saved_albums@.len() ==> artist_present(
                final(cat)@,
                (#[trigger] library.saved_albums@[k]).artists[0].id@,
            ) && album_present(final(cat)@, library.saved_albums@[k].id@),
        // the saved-albums phase is exactly its fold model, and the later
        // phases only extend its artist and album tables
        ({
            let mp = spec_sync_saved_albums(old(cat)@, library.saved_albums@, now);
            &&& mp.artists.len() <= final(cat)@.artists.len()
            &&& mp.albums.len() <= final(cat)@.albums.len()
            &&& forall|i: int| 0 <= i < mp.artists.len() ==> final(cat)@.artists[i] == mp.artists[i]
            &&& forall|i: int| 0 <= i < mp.albums.len() ==> final(cat)@.albums[i] == mp.albums[i]
        }),
        // the synthetic liked-songs row and a row for every fetched playlist
        // exist afterwards
        spec_find_playlist(final(cat)@.playlists, spec_liked_songs_spotify_id()) is Some,
        forall|k: int|
            0 <= k < library.playlists@.len() ==> spec_find_playlist(
                final(cat)@.playlists,
                (#[trigger] library.playlists@[k]).playlist.id@,
            ) is Some,
{
    let SpotifyLibrary { saved_albums, liked_total, liked_tracks, playlists } = library;
    let ghost saved0 = saved_albums@;
    let ghost ps0 = playlists@;
    let ghost m0 = cat@;
    proof {
        lemma_total_playlist_items_bounds(ps0);
    }
    sync_saved_albums(cat, saved_albums, now);
    proof {
        lemma_sync_establishes_presence(m0, saved0, now);
    }
    let ghost m1 = cat@;
    proof {
        assert(cat@.artists.len() <= m0.artists.len() + saved0.len()) by {
            lemma_sync_saved_albums_growth(m0, saved0, now);
        }
        assert(cat@.albums.len() <= m0.albums.len() + saved0.len()) by {
            lemma_sync_saved_albums_growth(m0, saved0, now);
        }
        lemma_sync_saved_albums_growth(m0, saved0, now);
    }
    sync_liked_songs(cat, liked_total, liked_tracks, now);
    proof {
        lemma_presence_carries(m1, cat@, saved0);
        assert(m1 == spec_sync_saved_albums(m0, saved0, now));
    }
    let mut playlists = playlists;
    while playlists.len() > 0
        invariant
            cat.wf(),
            playlists@.len() <= ps0.len(),
            playlists@ =~= ps0.skip(ps0.len() - playlists@.len()),
            forall|i: int|
                0 <= i < ps0.len() ==> (#[trigger] ps0[i]).tracks@.len() <= u32::MAX,
            forall|i: int, j: int|
                0 <= i < ps0.len() && 0 <= j < ps0[i].tracks@.len() && is_valid_item(
                    #[trigger] ps0[i].tracks@[j],
                ) ==> ps0[i].tracks@[j].track->0.artists@.len() >= 1,
            cat@.artists.len() + total_playlist_items(playlists@) <= u64::MAX,
            cat@.albums.len() + total_playlist_items(playlists@) <= u64::MAX,
            cat@.tracks.len() + total_playlist_items(playlists@) <= u64::MAX,
            cat@.next_entry_id + total_playlist_items(playlists@) <= u64::MAX,
            cat@.playlists.len() + playlists@.len() <= u64::MAX,
            forall|k: int|
                0 <= k < saved0.len() ==> artist_present(
                    cat@,
                    (#[trigger] saved0[k]).artists[0].id@,
                ) && album_present(cat@, saved0[k].id@),
            m1 == spec_sync_saved_albums(m0, saved0, now),
            m1.artists.len() <= cat@.artists.len(),
            m1.albums.len() <= cat@.albums.len(),
            forall|i: int| 0 <= i < m1.artists.len() ==> cat@.artists[i] == m1.artists[i],
            forall|i: int| 0 <= i < m1.albums.len() ==> cat@.albums[i] == m1.albums[i],
            spec_find_playlist(cat@.playlists, spec_liked_songs_spotify_id()) is Some,
            forall|k: int|
                0 <= k < ps0.len() - playlists@.len() ==> spec_find_playlist(
                    cat@.playlists,
                    (#[trigger] ps0[k]).playlist.id@,
                ) is Some,
        decreases playlists@.len(),
    {
        let ghost k = ps0.len() - playlists@.len();
        proof {
            assert(ps0.skip(k)[0] == ps0[k]);
            assert(ps0.skip(k).drop_first() =~= ps0.skip(k + 1));
            lemma_total_playlist_items_bounds(playlists@);
        }
        let entry = playlists.remove(0);
        proof {
            assert(playlists@ =~= ps0.skip(k + 1));
        }
        let FetchedPlaylist { playlist, tracks } = entry;
        let ghost pre = cat@;
        let ghost plv = playlist;
        sync_one_playlist(cat, playlist, tracks, now);
        proof {
            lemma_presence_carries(pre, cat@, saved0);
            lemma_playlist_presence_preserved(
                pre.playlists,
                cat@.playlists,
                spec_liked_songs_spotify_id(),
            );
            assert(plv == ps0[k].playlist);
            assert forall|q: int| 0 <= q < k + 1 implies spec_find_playlist(
                cat@.playlists,
                (#[trigger] ps0[q]).playlist.id@,
            ) is Some by {
                if q < k {
                    lemma_playlist_presence_preserved(
                        pre.playlists,
                        cat@.playlists,
                        ps0[q].playlist.id@,
                    );
                }
            }
        }
    }
    proof {
        assert(ps0.len() - playlists@.len() == ps0.len());
    }
}

/// A playlist row's presence survives any phase that keeps every existing
/// row's external id (rows are never deleted).
pub proof fn lemma_playlist_presence_preserved(a: Seq<Playlist>, b: Seq<Playlist>, sid: Seq<char>)
    requires
        a.len() <= b.len(),
        forall|j: int| 0 <= j < a.len() ==> (#[trigger] b[j]).spotify_id == a[j].spotify_id,
        spec_find_playlist(a, sid) is Some,
    ensures
        spec_find_playlist(b, sid) is Some,
{
    crate::catalog::lemma_find_playlist_some(a, sid, 0);
    let j = spec_find_playlist(a, sid)->0;
    crate::catalog::lemma_find_playlist_witness(b, sid, j);
}

/// Saved-album and artist rows never move, so their presence carries across
/// later phases that only append rows.
pub proof fn lemma_presence_carries(a: CatalogModel, b: CatalogModel, saved: Seq<SpotifyAlbum>)
    requires
        a.artists.len() <= b.artists.len(),
        a.albums.len() <= b.albums.len(),
        forall|i: int| 0 <= i < a.artists.len() ==> b.artists[i] == a.artists[i],
        forall|i: int| 0 <= i < a.albums.len() ==> b.albums[i] == a.albums[i],
        forall|k: int|
            0 <= k < saved.len() ==> artist_present(a, (#[trigger] saved[k]).artists[0].id@)
                && album_present(a, saved[k].id@),
    ensures
        forall|k: int|
            0 <= k < saved.len() ==> artist_present(b, (#[trigger] saved[k]).artists[0].id@)
                && album_present(b, saved[k].id@),
{
    assert forall|k: int| 0 <= k < saved.len() implies artist_present(
        b,
        (#[trigger] saved[k]).artists[0].id@,
    ) && album_present(b, saved[k].id@) by {
        crate::catalog::lemma_find_artist_some(a.artists, saved[k].artists[0].id@, 0);
        let i = spec_find_artist(a.artists, saved[k].artists[0].id@)->0;
        crate::catalog::lemma_find_artist_witness(b.artists, saved[k].artists[0].id@, i);
        crate::catalog::lemma_find_album_some(a.albums, saved[k].id@, 0);
        let j = spec_find_album(a.albums, saved[k].id@)->0;
        crate::catalog::lemma_find_album_witness(b.albums, saved[k].id@, j);
    }
}

/// The saved-albums phase grows the artist and album tables by at most one
/// row per fetched album and touches nothing else's length.
pub proof fn lemma_sync_saved_albums_growth(m: CatalogModel, items: Seq<SpotifyAlbum>, now: u64)
    ensures
        spec_sync_saved_albums(m, items, now).artists.len() <= m.artists.len() + items.len(),
        spec_sync_saved_albums(m, items, now).albums.len() <= m.albums.len() + items.len(),
        spec_sync_saved_albums(m, items, now).artists.len() >= m.artists.len(),
        spec_sync_saved_albums(m, items, now).albums.len() >= m.albums.len(),
        spec_sync_saved_albums(m, items, now).tracks == m.tracks,
        spec_sync_saved_albums(m, items, now).playlists == m.playlists,
        spec_sync_saved_albums(m, items, now).entries == m.entries,
        spec_sync_saved_albums(m, items, now).next_entry_id == m.next_entry_id,
        forall|i: int|
            0 <= i < m.artists.len() ==> spec_sync_saved_albums(m, items, now).artists[i]
                == m.artists[i],
        forall|i: int|
            0 <= i < m.albums.len() ==> spec_sync_saved_albums(m, items, now).albums[i]
                == m.albums[i],
    decreases items.len(),
{
    if items.len() > 0 {
        let ma = spec_upsert_artist(m, items[0].artists[0], now).0;
        let aid = spec_upsert_artist(m, items[0].artists[0], now).1;
        let m1 = spec_sync_one_saved_album(m, items[0], now);
        assert(m1 == spec_upsert_album(ma, items[0], aid, AlbumSource::SavedAlbum, now).0);
        assert forall|i: int| 0 <= i < m.artists.len() implies m1.artists[i] == m.artists[i] by {
            match spec_find_artist(m.artists, items[0].artists[0].id@) {
                Some(_) => {
                    assert(ma.artists == m.artists);
                },
                None => {
                    assert(ma.artists == m.artists.push(
                        spec_new_artist(m.artists.len() as u64, items[0].artists[0], now),
                    ));
                },
            }
            assert(m1.artists == ma.artists);
        }
        assert forall|i: int| 0 <= i < m.albums.len() implies m1.albums[i] == m.albums[i] by {
            assert(ma.albums == m.albums);
            match spec_find_album(ma.albums, items[0].id@) {
                Some(_) => {
                    assert(m1.albums == ma.albums);
                },
                None => {
                    assert(m1.albums == ma.albums.push(
                        spec_new_album(
                            ma.albums.len() as u64,
                            aid,
                            items[0],
                            AlbumSource::SavedAlbum,
                            now,
                        ),
                    ));
                },
            }
        }
        lemma_sync_saved_albums_growth(m1, items.drop_first(), now);
    }
}

} // verus!
