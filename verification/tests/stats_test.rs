use beatcollector::catalog::Catalog;
use beatcollector::spotify::{
    SpotifyAlbum, SpotifyArtist, SpotifyPlaylist, SpotifyPlaylistOwner, SpotifyPlaylistTrack,
    SpotifyPlaylistTracksRef, SpotifyTrack,
};
use beatcollector::stats::{
    get_batch_playlist_ownership_stats, get_playlist_tracks_paginated,
    recalculate_all_playlist_stats, recalculate_playlist_owned_count, update_playlists_for_album,
};
use beatcollector::sync::{sync_playlist_tracks, upsert_playlist};
use beatcollector::views::{update_album, UpdateAlbumRequest};

fn item_on_album(track_id: &str, album_id: &str) -> SpotifyPlaylistTrack {
    SpotifyPlaylistTrack {
        track: Some(SpotifyTrack {
            id: Some(track_id.to_string()),
            name: format!("Track {}", track_id),
            track_number: 1,
            disc_number: 1,
            duration_ms: 200_000,
            album: SpotifyAlbum {
                id: album_id.to_string(),
                name: format!("Album {}", album_id),
                artists: vec![SpotifyArtist {
                    id: "ar1".to_string(),
                    name: "Artist One".to_string(),
                }],
                release_date: "2001".to_string(),
                total_tracks: 10,
                images: vec![],
                genres: None,
            },
            artists: vec![SpotifyArtist { id: "ar1".to_string(), name: "Artist One".to_string() }],
        }),
        added_at: None,
    }
}

fn playlist(id: &str) -> SpotifyPlaylist {
    SpotifyPlaylist {
        id: id.to_string(),
        name: format!("Playlist {}", id),
        description: None,
        owner: SpotifyPlaylistOwner { id: "o".to_string(), display_name: None },
        collaborative: false,
        tracks: SpotifyPlaylistTracksRef { total: 3 },
        images: vec![],
        snapshot_id: "s1".to_string(),
    }
}

/// A playlist with two tracks of album X and one of album Y, plus a second
/// playlist with one track of album X.
fn two_playlist_catalog() -> (Catalog, u64, u64, u64) {
    let mut cat = Catalog::new();
    let p1 = upsert_playlist(&mut cat, playlist("pl1"), 1);
    let p2 = upsert_playlist(&mut cat, playlist("pl2"), 1);
    sync_playlist_tracks(
        &mut cat,
        p1,
        vec![
            item_on_album("t1", "X"),
            item_on_album("t2", "X"),
            item_on_album("t3", "Y"),
        ],
        2,
    );
    sync_playlist_tracks(&mut cat, p2, vec![item_on_album("t1", "X")], 2);
    let album_x = cat
        .albums
        .iter()
        .position(|a| a.spotify_id.as_deref() == Some("X"))
        .unwrap() as u64;
    (cat, p1, p2, album_x)
}

#[test]
fn flipping_one_album_raises_each_count_by_its_tracks_in_the_playlist() {
    let (mut cat, p1, p2, album_x) = two_playlist_catalog();
    let before_p1 = recalculate_playlist_owned_count(&cat, p1);
    let before_p2 = recalculate_playlist_owned_count(&cat, p2);
    assert_eq!((before_p1, before_p2), (0, 0));

    // flip album X from NotOwned to Owned, then reconcile
    let req = UpdateAlbumRequest {
        ownership_status: Some("owned".to_string()),
        acquisition_source: None,
        local_path: None,
    };
    update_album(&mut cat, album_x, &req, 3).unwrap();
    update_playlists_for_album(&mut cat, album_x, 3);

    // playlist one holds two tracks of X, playlist two holds one
    assert_eq!(recalculate_playlist_owned_count(&cat, p1), before_p1 + 2);
    assert_eq!(recalculate_playlist_owned_count(&cat, p2), before_p2 + 1);

    // the denormalized counts were reconciled synchronously and agree
    assert_eq!(cat.playlists[p1 as usize].owned_count, Some(2));
    assert_eq!(cat.playlists[p2 as usize].owned_count, Some(1));
}

#[test]
fn batch_stats_report_owned_and_total_per_playlist() {
    let (mut cat, p1, p2, album_x) = two_playlist_catalog();
    let req = UpdateAlbumRequest {
        ownership_status: Some("owned".to_string()),
        acquisition_source: None,
        local_path: None,
    };
    update_album(&mut cat, album_x, &req, 3).unwrap();

    let stats = get_batch_playlist_ownership_stats(&cat, &vec![p1, p2]);
    assert_eq!(stats.get(&p1), Some(&(2, 3)));
    assert_eq!(stats.get(&p2), Some(&(1, 1)));
    assert_eq!(stats.len(), 2);
}

#[test]
fn full_recompute_backfills_every_playlist() {
    let (mut cat, p1, p2, _x) = two_playlist_catalog();
    assert_eq!(cat.playlists[p1 as usize].owned_count, None);
    let n = recalculate_all_playlist_stats(&mut cat, 9);
    assert_eq!(n, 2);
    assert_eq!(cat.playlists[p1 as usize].owned_count, Some(0));
    assert_eq!(cat.playlists[p2 as usize].owned_count, Some(0));
}

#[test]
fn paginated_tracks_come_back_in_position_order() {
    let (mut cat, p1, _p2, _x) = two_playlist_catalog();
    // shuffle the stored row order away from position order
    cat.entries[0].position = 2;
    cat.entries[1].position = 0;
    cat.entries[2].position = 1;

    let (page, total) = get_playlist_tracks_paginated(&cat, p1, 0, 50);
    assert_eq!(total, 3);
    let positions: Vec<u32> = page.iter().map(|d| d.position).collect();
    assert_eq!(positions, vec![0, 1, 2]);
    assert_eq!(page[0].track_name, "Track t2");
    assert_eq!(page[1].track_name, "Track t3");
    assert_eq!(page[2].track_name, "Track t1");
    assert_eq!(page[0].artist_name, "Artist One");

    // windowing
    let (window, total2) = get_playlist_tracks_paginated(&cat, p1, 1, 1);
    assert_eq!(total2, 3);
    assert_eq!(window.len(), 1);
    assert_eq!(window[0].position, 1);

    // an offset past the end yields an empty page, not a panic
    let (empty, _t) = get_playlist_tracks_paginated(&cat, p1, 10, 50);
    assert_eq!(empty.len(), 0);
}

#[test]
fn paginated_tracks_drop_rows_that_do_not_join() {
    let (mut cat, p1, _p2, _x) = two_playlist_catalog();
    // break one membership's track reference: the join drops it, the raw
    // member total still counts it
    let dangling = cat.tracks.len() as u64 + 10;
    cat.entries[0].track_id = dangling;
    let (page, total) = get_playlist_tracks_paginated(&cat, p1, 0, 50);
    assert_eq!(total, 3);
    assert_eq!(page.len(), 2);
}
