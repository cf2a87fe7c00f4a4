use beatcollector::catalog::Catalog;
use beatcollector::enums::{AcquisitionSource, OwnershipStatus};
use beatcollector::spotify::{SpotifyAlbum, SpotifyArtist};
use beatcollector::sync::sync_saved_albums;
use beatcollector::views::{
    default_page, default_page_size, default_sort_by, default_sort_order, default_track_limit,
    format_duration, get_stats, make_pagination, page_range, update_album, UpdateAlbumError,
    UpdateAlbumRequest,
};

fn album(id: &str, name: &str) -> SpotifyAlbum {
    SpotifyAlbum {
        id: id.to_string(),
        name: name.to_string(),
        artists: vec![SpotifyArtist { id: "ar1".to_string(), name: "Artist".to_string() }],
        release_date: "2001".to_string(),
        total_tracks: 10,
        images: vec![],
        genres: None,
    }
}

#[test]
fn durations_format_as_minutes_and_padded_seconds() {
    assert_eq!(format_duration(125_000), "2:05");
    assert_eq!(format_duration(59_000), "0:59");
    assert_eq!(format_duration(600_000), "10:00");
    assert_eq!(format_duration(0), "0:00");
    assert_eq!(format_duration(999), "0:00");
    assert_eq!(format_duration(61_000), "1:01");
}

#[test]
fn page_range_clips_to_existing_pages() {
    assert_eq!(page_range(5, 10), vec![3, 4, 5, 6, 7]);
    assert_eq!(page_range(1, 10), vec![1, 2, 3]);
    assert_eq!(page_range(2, 10), vec![1, 2, 3, 4]);
    assert_eq!(page_range(10, 10), vec![8, 9, 10]);
    assert_eq!(page_range(1, 1), vec![1]);
    assert_eq!(page_range(1, 0), Vec::<u64>::new());
}

#[test]
fn pagination_clamps_requests_and_rounds_pages_up() {
    let p = make_pagination(0, 0, 101);
    assert_eq!((p.page, p.page_size), (1, 1));
    assert_eq!(p.total_pages, 101);

    let p = make_pagination(3, 50, 101);
    assert_eq!((p.page, p.page_size, p.total_items, p.total_pages), (3, 50, 101, 3));

    let p = make_pagination(1, 1000, 100);
    assert_eq!(p.page_size, 200);
    assert_eq!(p.total_pages, 1);

    let p = make_pagination(1, 50, 0);
    assert_eq!(p.total_pages, 0);
}

#[test]
fn defaults_match_the_request_shapes() {
    assert_eq!(default_page(), 1);
    assert_eq!(default_page_size(), 50);
    assert_eq!(default_track_limit(), 50);
    assert_eq!(default_sort_by(), "name");
    assert_eq!(default_sort_order(), "asc");
}

#[test]
fn stats_count_albums_by_state() {
    let mut cat = Catalog::new();
    sync_saved_albums(
        &mut cat,
        vec![album("a", "One"), album("b", "Two"), album("c", "Three")],
        1,
    );
    cat.albums[0].ownership_status = OwnershipStatus::Owned;
    cat.albums[1].ownership_status = OwnershipStatus::Downloading;
    let s = get_stats(&cat);
    assert_eq!(s.total_albums, 3);
    assert_eq!(s.owned_albums, 1);
    assert_eq!(s.downloading_albums, 1);
    assert_eq!(s.not_owned_albums, 1);
    assert_eq!(s.matched_albums, 0);
    assert_eq!(s.unmatched_albums, 3);
    assert_eq!(s.total_artists, 1);
}

#[test]
fn update_album_applies_each_named_field() {
    let mut cat = Catalog::new();
    sync_saved_albums(&mut cat, vec![album("a", "One")], 1);
    let req = UpdateAlbumRequest {
        ownership_status: Some("owned".to_string()),
        acquisition_source: Some("physical".to_string()),
        local_path: Some("/music/One".to_string()),
    };
    assert_eq!(update_album(&mut cat, 0, &req, 5), Ok(()));
    assert_eq!(cat.albums[0].ownership_status, OwnershipStatus::Owned);
    assert_eq!(cat.albums[0].acquisition_source, Some(AcquisitionSource::Physical));
    assert_eq!(cat.albums[0].local_path.as_deref(), Some("/music/One"));
    assert_eq!(cat.albums[0].updated_at, 5);
}

#[test]
fn test_update_album_not_found() {
    let mut cat = Catalog::new();
    let req =
        UpdateAlbumRequest { ownership_status: None, acquisition_source: None, local_path: None };
    assert_eq!(update_album(&mut cat, 0, &req, 5), Err(UpdateAlbumError::NotFound));
}

#[test]
fn test_update_album_invalid_ownership_status() {
    let mut cat = Catalog::new();
    sync_saved_albums(&mut cat, vec![album("a", "One")], 1);
    let req = UpdateAlbumRequest {
        ownership_status: Some("borrowed".to_string()),
        acquisition_source: None,
        local_path: None,
    };
    assert_eq!(
        update_album(&mut cat, 0, &req, 5),
        Err(UpdateAlbumError::InvalidOwnershipStatus)
    );
    // a refused update changes nothing
    assert_eq!(cat.albums[0].ownership_status, OwnershipStatus::NotOwned);
    assert_eq!(cat.albums[0].updated_at, 1);
}

#[test]
fn unknown_acquisition_source_falls_back_to_none() {
    let mut cat = Catalog::new();
    sync_saved_albums(&mut cat, vec![album("a", "One")], 1);
    let req = UpdateAlbumRequest {
        ownership_status: None,
        acquisition_source: Some("gift".to_string()),
        local_path: None,
    };
    assert_eq!(update_album(&mut cat, 0, &req, 5), Ok(()));
    assert_eq!(cat.albums[0].acquisition_source, None);
}
