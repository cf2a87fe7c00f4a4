use beatcollector::catalog::Catalog;
use beatcollector::enums::MatchStatus;
use beatcollector::matching::{
    classify_match_score, needs_fuzzy_retry, pick_release_match, resolve_pending_album,
    MusicBrainzMatch,
};
use beatcollector::spotify::{SpotifyAlbum, SpotifyArtist};
use beatcollector::sync::sync_saved_albums;

fn candidate(id: &str, title: &str, score: i32) -> MusicBrainzMatch {
    MusicBrainzMatch {
        id: id.to_string(),
        title: title.to_string(),
        artist_credit: vec![],
        score,
        first_release_date: None,
    }
}

fn pending_album_catalog() -> Catalog {
    let mut cat = Catalog::new();
    let fetched = SpotifyAlbum {
        id: "al1".to_string(),
        name: "Abbey Road".to_string(),
        artists: vec![SpotifyArtist { id: "ar1".to_string(), name: "The Beatles".to_string() }],
        release_date: "1969".to_string(),
        total_tracks: 17,
        images: vec![],
        genres: None,
    };
    sync_saved_albums(&mut cat, vec![fetched], 1);
    cat
}

#[test]
fn classification_boundaries() {
    assert_eq!(classify_match_score(100), MatchStatus::Matched);
    assert_eq!(classify_match_score(90), MatchStatus::Matched);
    assert_eq!(classify_match_score(89), MatchStatus::ManualReview);
    assert_eq!(classify_match_score(80), MatchStatus::ManualReview);
    assert_eq!(classify_match_score(79), MatchStatus::NoMatch);
    assert_eq!(classify_match_score(0), MatchStatus::NoMatch);
}

#[test]
fn resolved_score_ninety_is_matched() {
    let mut cat = pending_album_catalog();
    let r = resolve_pending_album(&mut cat, 0, &vec![candidate("mb1", "Abbey Road", 90)], None, 2);
    assert_eq!(r, MatchStatus::Matched);
    assert_eq!(cat.albums[0].match_status, MatchStatus::Matched);
    assert_eq!(cat.albums[0].match_score, Some(90));
    assert_eq!(cat.albums[0].musicbrainz_release_group_id.as_deref(), Some("mb1"));
}

#[test]
fn resolved_score_eighty_nine_needs_review() {
    let mut cat = pending_album_catalog();
    let r = resolve_pending_album(&mut cat, 0, &vec![candidate("mb1", "Abbey Road", 89)], None, 2);
    assert_eq!(r, MatchStatus::ManualReview);
    assert_eq!(cat.albums[0].match_status, MatchStatus::ManualReview);
    assert_eq!(cat.albums[0].match_score, Some(89));
}

#[test]
fn resolved_score_seventy_nine_is_no_match() {
    let mut cat = pending_album_catalog();
    let r = resolve_pending_album(&mut cat, 0, &vec![candidate("mb1", "Abbey Road", 79)], None, 2);
    assert_eq!(r, MatchStatus::NoMatch);
    assert_eq!(cat.albums[0].match_status, MatchStatus::NoMatch);
    // below the floor nothing is persisted
    assert_eq!(cat.albums[0].match_score, None);
    assert_eq!(cat.albums[0].musicbrainz_release_group_id, None);
}

#[test]
fn no_candidate_is_no_match() {
    let mut cat = pending_album_catalog();
    let r = resolve_pending_album(&mut cat, 0, &vec![], None, 2);
    assert_eq!(r, MatchStatus::NoMatch);
    assert_eq!(cat.albums[0].match_status, MatchStatus::NoMatch);
}

#[test]
fn cover_fetch_failure_does_not_undo_the_match() {
    let mut cat = pending_album_catalog();
    let r = resolve_pending_album(&mut cat, 0, &vec![candidate("mb1", "Abbey Road", 95)], None, 2);
    assert_eq!(r, MatchStatus::Matched);
    assert_eq!(cat.albums[0].cover_art_url, None);

    let mut cat2 = pending_album_catalog();
    let r2 = resolve_pending_album(
        &mut cat2,
        0,
        &vec![candidate("mb1", "Abbey Road", 95)],
        Some("/static/covers/0.jpg".to_string()),
        2,
    );
    assert_eq!(r2, MatchStatus::Matched);
    assert_eq!(cat2.albums[0].cover_art_url.as_deref(), Some("/static/covers/0.jpg"));
}

#[test]
fn highest_score_wins_and_ties_break_by_fetch_order() {
    let m = vec![
        candidate("first", "A", 85),
        candidate("best", "B", 92),
        candidate("tied", "C", 92),
        candidate("low", "D", 70),
    ];
    assert_eq!(pick_release_match(&m), Some(1));

    let below_floor = vec![candidate("x", "A", 79), candidate("y", "B", 50)];
    assert_eq!(pick_release_match(&below_floor), None);
    assert_eq!(pick_release_match(&vec![]), None);
}

#[test]
fn fuzzy_retry_exactly_when_nothing_reaches_the_floor() {
    assert!(needs_fuzzy_retry(&vec![]));
    assert!(needs_fuzzy_retry(&vec![candidate("x", "A", 79)]));
    assert!(!needs_fuzzy_retry(&vec![candidate("x", "A", 79), candidate("y", "B", 80)]));
}
