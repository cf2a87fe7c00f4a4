use beatcollector::catalog::Catalog;
use beatcollector::enums::{AlbumSource, MatchStatus, OwnershipStatus};
use beatcollector::spotify::{
    SpotifyAlbum, SpotifyArtist, SpotifyPlaylist, SpotifyPlaylistOwner, SpotifyPlaylistTrack,
    SpotifyPlaylistTracksRef, SpotifyTrack,
};
use beatcollector::sync::{
    compute_tracks_hash, liked_songs_spotify_id, run_spotify_sync, sync_liked_songs,
    sync_one_playlist, sync_playlist_tracks, sync_saved_albums, upsert_playlist, FetchedPlaylist,
    SpotifyLibrary,
};

fn artist(id: &str, name: &str) -> SpotifyArtist {
    SpotifyArtist { id: id.to_string(), name: name.to_string() }
}

fn album(id: &str, name: &str, artist_id: &str, artist_name: &str) -> SpotifyAlbum {
    SpotifyAlbum {
        id: id.to_string(),
        name: name.to_string(),
        artists: vec![artist(artist_id, artist_name)],
        release_date: "1969-09-26".to_string(),
        total_tracks: 17,
        images: vec![],
        genres: Some(vec!["rock".to_string()]),
    }
}

fn playlist_item(track_id: &str, name: &str) -> SpotifyPlaylistTrack {
    SpotifyPlaylistTrack {
        track: Some(SpotifyTrack {
            id: Some(track_id.to_string()),
            name: name.to_string(),
            track_number: 1,
            disc_number: 1,
            duration_ms: 180_000,
            album: album(
                &format!("album-of-{}", track_id),
                &format!("Album of {}", name),
                "ar1",
                "Artist One",
            ),
            artists: vec![artist("ar1", "Artist One")],
        }),
        added_at: Some("2024-01-01T00:00:00Z".to_string()),
    }
}

fn fetched_playlist(id: &str, snapshot: &str) -> SpotifyPlaylist {
    SpotifyPlaylist {
        id: id.to_string(),
        name: "Road Trip".to_string(),
        description: None,
        owner: SpotifyPlaylistOwner { id: "owner".to_string(), display_name: None },
        collaborative: false,
        tracks: SpotifyPlaylistTracksRef { total: 3 },
        images: vec![],
        snapshot_id: snapshot.to_string(),
    }
}

#[test]
fn saved_albums_sync_is_idempotent() {
    let mut cat = Catalog::new();
    let fetch = || {
        vec![
            album("al1", "Abbey Road", "ar1", "The Beatles"),
            album("al2", "Revolver", "ar1", "The Beatles"),
            album("al3", "Blue", "ar2", "Joni Mitchell"),
        ]
    };
    sync_saved_albums(&mut cat, fetch(), 1000);
    assert_eq!(cat.artists.len(), 2);
    assert_eq!(cat.albums.len(), 3);
    let names: Vec<String> = cat.albums.iter().map(|a| a.title.clone()).collect();
    let artist_ids: Vec<u64> = cat.albums.iter().map(|a| a.artist_id).collect();

    // a second run over the same fetched data, later, changes nothing
    sync_saved_albums(&mut cat, fetch(), 2000);
    assert_eq!(cat.artists.len(), 2);
    assert_eq!(cat.albums.len(), 3);
    let names2: Vec<String> = cat.albums.iter().map(|a| a.title.clone()).collect();
    let artist_ids2: Vec<u64> = cat.albums.iter().map(|a| a.artist_id).collect();
    assert_eq!(names, names2);
    assert_eq!(artist_ids, artist_ids2);
    assert_eq!(cat.albums[0].created_at, 1000);
    assert_eq!(cat.albums[0].updated_at, 1000);
}

#[test]
fn new_albums_start_not_owned_and_pending() {
    let mut cat = Catalog::new();
    sync_saved_albums(&mut cat, vec![album("al1", "Abbey Road", "ar1", "The Beatles")], 7);
    assert_eq!(cat.albums[0].ownership_status, OwnershipStatus::NotOwned);
    assert_eq!(cat.albums[0].match_status, MatchStatus::Pending);
    assert_eq!(cat.albums[0].source, AlbumSource::SavedAlbum);
    assert_eq!(cat.albums[0].total_tracks, Some(17));
    let d = cat.albums[0].release_date.unwrap();
    assert_eq!((d.year, d.month, d.day), (1969, 9, 26));
}

#[test]
fn playlist_membership_reconciliation_removes_and_adds() {
    let mut cat = Catalog::new();
    let pl = fetched_playlist("pl1", "snap-1");
    let pid = upsert_playlist(&mut cat, pl, 10);

    // previously containing tracks A, B, C
    let first = vec![
        playlist_item("A", "Track A"),
        playlist_item("B", "Track B"),
        playlist_item("C", "Track C"),
    ];
    let keys1 = sync_playlist_tracks(&mut cat, pid, first, 10);
    assert_eq!(keys1.len(), 3);
    assert_eq!(cat.entries.len(), 3);

    // a new fetch returning A, C, D
    let second = vec![
        playlist_item("A", "Track A"),
        playlist_item("C", "Track C"),
        playlist_item("D", "Track D"),
    ];
    let keys2 = sync_playlist_tracks(&mut cat, pid, second, 20);
    assert_eq!(keys2.len(), 3);

    // the membership set is exactly {A, C, D}
    assert_eq!(cat.entries.len(), 3);
    let mut member_sids: Vec<String> = cat
        .entries
        .iter()
        .map(|e| cat.tracks[e.track_id as usize].spotify_id.clone().unwrap())
        .collect();
    member_sids.sort();
    assert_eq!(member_sids, vec!["A".to_string(), "C".to_string(), "D".to_string()]);

    // positions match fetch order
    for e in &cat.entries {
        let sid = cat.tracks[e.track_id as usize].spotify_id.clone().unwrap();
        let expected = match sid.as_str() {
            "A" => 0,
            "C" => 1,
            "D" => 2,
            _ => unreachable!(),
        };
        assert_eq!(e.position, expected);
    }

    // B's track row survives; only its membership is gone
    assert_eq!(cat.tracks.len(), 4);
}

#[test]
fn skipped_items_keep_their_fetch_position() {
    let mut cat = Catalog::new();
    let pl = fetched_playlist("pl1", "snap-1");
    let pid = upsert_playlist(&mut cat, pl, 10);
    let items = vec![
        playlist_item("A", "Track A"),
        SpotifyPlaylistTrack { track: None, added_at: None },
        playlist_item("B", "Track B"),
    ];
    let keys = sync_playlist_tracks(&mut cat, pid, items, 10);
    assert_eq!(keys.len(), 2);
    assert_eq!(cat.entries.len(), 2);
    let positions: Vec<u32> = cat.entries.iter().map(|e| e.position).collect();
    assert_eq!(positions, vec![0, 2]);
}

#[test]
fn unchanged_snapshot_skips_track_sync() {
    let mut cat = Catalog::new();
    // first sync: row must be enabled for tracks to sync at all
    let pid = upsert_playlist(&mut cat, fetched_playlist("pl1", "snap-1"), 1);
    cat.playlists[pid as usize].is_enabled = true;
    let first = vec![playlist_item("A", "Track A"), playlist_item("B", "Track B")];
    sync_one_playlist(&mut cat, fetched_playlist("pl1", "snap-1"), first, 2);
    assert_eq!(cat.entries.len(), 2);
    assert_eq!(cat.playlists[pid as usize].snapshot_id.as_deref(), Some("snap-1"));
    let tracks_before = cat.tracks.len();
    let entries_before: Vec<(u64, u64, u32)> = cat
        .entries
        .iter()
        .map(|e| (e.playlist_id, e.track_id, e.position))
        .collect();

    // second sync with the same snapshot token: no track-level work at all,
    // even though the fetched list differs
    let decoy = vec![playlist_item("Z", "Track Z")];
    sync_one_playlist(&mut cat, fetched_playlist("pl1", "snap-1"), decoy, 3);
    assert_eq!(cat.tracks.len(), tracks_before);
    let entries_after: Vec<(u64, u64, u32)> = cat
        .entries
        .iter()
        .map(|e| (e.playlist_id, e.track_id, e.position))
        .collect();
    assert_eq!(entries_before, entries_after);

    // a changed snapshot token syncs again
    let fresh = vec![playlist_item("Z", "Track Z")];
    sync_one_playlist(&mut cat, fetched_playlist("pl1", "snap-2"), fresh, 4);
    assert_eq!(cat.entries.len(), 1);
    assert_eq!(cat.playlists[pid as usize].snapshot_id.as_deref(), Some("snap-2"));
}

#[test]
fn disabled_playlists_never_sync_tracks() {
    let mut cat = Catalog::new();
    // playlists start disabled until the user opts in
    let items = vec![playlist_item("A", "Track A")];
    sync_one_playlist(&mut cat, fetched_playlist("pl1", "snap-1"), items, 1);
    assert_eq!(cat.entries.len(), 0);
    assert_eq!(cat.tracks.len(), 0);
    assert_eq!(cat.playlists.len(), 1);
}

#[test]
fn tracks_hash_ignores_fetch_order() {
    let one = vec![
        playlist_item("A", "Track A"),
        playlist_item("B", "Track B"),
        playlist_item("C", "Track C"),
    ];
    let other = vec![
        playlist_item("C", "Track C"),
        playlist_item("A", "Track A"),
        playlist_item("B", "Track B"),
    ];
    let h1 = compute_tracks_hash(&one);
    let h2 = compute_tracks_hash(&other);
    assert_eq!(h1, h2);
    assert_eq!(h1.len(), 64);

    let different = vec![playlist_item("A", "Track A")];
    assert_ne!(compute_tracks_hash(&different), h1);
}

#[test]
fn liked_songs_sync_uses_content_hash_for_change_detection() {
    let mut cat = Catalog::new();
    // first pass creates the synthetic row, disabled by default
    sync_liked_songs(&mut cat, 2, vec![playlist_item("A", "Track A")], 1);
    let pid = cat
        .playlists
        .iter()
        .position(|p| p.spotify_id == liked_songs_spotify_id())
        .unwrap();
    assert!(cat.playlists[pid].is_synthetic);
    assert!(!cat.playlists[pid].is_enabled);
    assert_eq!(cat.entries.len(), 0);

    // enabled, the tracks sync and the hash is stored as the snapshot
    cat.playlists[pid].is_enabled = true;
    let items = || vec![playlist_item("A", "Track A"), playlist_item("B", "Track B")];
    sync_liked_songs(&mut cat, 2, items(), 2);
    assert_eq!(cat.entries.len(), 2);
    let snap = cat.playlists[pid].snapshot_id.clone().unwrap();
    assert_eq!(snap, compute_tracks_hash(&items()));

    // unchanged content: no track-level work on the next sync
    let tracks_before = cat.tracks.len();
    sync_liked_songs(&mut cat, 2, items(), 3);
    assert_eq!(cat.tracks.len(), tracks_before);
    assert_eq!(cat.entries.len(), 2);
}

fn library() -> SpotifyLibrary {
    SpotifyLibrary {
        saved_albums: vec![
            album("al1", "Abbey Road", "ar1", "The Beatles"),
            album("al2", "Blue", "ar2", "Joni Mitchell"),
        ],
        liked_total: 1,
        liked_tracks: vec![playlist_item("L1", "Liked One")],
        playlists: vec![FetchedPlaylist {
            playlist: fetched_playlist("pl1", "snap-1"),
            tracks: vec![playlist_item("A", "Track A")],
        }],
    }
}

#[test]
fn whole_sync_run_is_idempotent_on_rows() {
    let mut cat = Catalog::new();
    run_spotify_sync(&mut cat, library(), 100);
    // playlists (the real one and liked songs) start disabled, so only the
    // saved-albums phase writes rows on the first run
    let artists: Vec<(u64, String)> =
        cat.artists.iter().map(|a| (a.id, a.name.clone())).collect();
    let albums: Vec<(u64, u64, String)> =
        cat.albums.iter().map(|a| (a.id, a.artist_id, a.title.clone())).collect();
    let tracks = cat.tracks.len();
    let entries = cat.entries.len();
    let playlists = cat.playlists.len();

    // a second run over the same fetched data adds nothing and moves no keys
    run_spotify_sync(&mut cat, library(), 200);
    let artists2: Vec<(u64, String)> =
        cat.artists.iter().map(|a| (a.id, a.name.clone())).collect();
    let albums2: Vec<(u64, u64, String)> =
        cat.albums.iter().map(|a| (a.id, a.artist_id, a.title.clone())).collect();
    assert_eq!(artists, artists2);
    assert_eq!(albums, albums2);
    assert_eq!(cat.tracks.len(), tracks);
    assert_eq!(cat.entries.len(), entries);
    assert_eq!(cat.playlists.len(), playlists);
}

#[test]
fn whole_sync_run_is_idempotent_with_enabled_playlists() {
    let mut cat = Catalog::new();
    run_spotify_sync(&mut cat, library(), 100);
    // opt both playlist rows in, then sync twice more
    for p in cat.playlists.iter_mut() {
        p.is_enabled = true;
    }
    run_spotify_sync(&mut cat, library(), 200);
    let rows = |cat: &Catalog| {
        (
            cat.artists.len(),
            cat.albums.len(),
            cat.tracks.len(),
            cat.entries
                .iter()
                .map(|e| (e.playlist_id, e.track_id, e.position))
                .collect::<Vec<_>>(),
        )
    };
    let before = rows(&cat);
    // unchanged snapshots and an unchanged liked-songs hash: the third run
    // rewrites metadata and timestamps only
    run_spotify_sync(&mut cat, library(), 300);
    assert_eq!(rows(&cat), before);
}
