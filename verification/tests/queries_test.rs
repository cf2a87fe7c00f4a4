use beatcollector::queries::{
    exact_search_query, find_sub, fuzzy_search_query, normalize_artist, search_request_path,
    trim_spaces,
};

#[test]
fn test_normalize_artist() {
    assert_eq!(normalize_artist("Artist feat. Someone"), "Artist");
    assert_eq!(normalize_artist("Artist ft. Someone"), "Artist");
}

#[test]
fn normalization_trims_and_keeps_plain_names() {
    assert_eq!(normalize_artist("  The Beatles  "), "The Beatles");
    assert_eq!(normalize_artist("The Beatles"), "The Beatles");
    assert_eq!(normalize_artist(""), "");
    assert_eq!(normalize_artist("A feat. B feat. C"), "A");
}

#[test]
fn substring_search_finds_first_occurrence() {
    assert_eq!(find_sub("abcabc", "bc"), Some(1));
    assert_eq!(find_sub("abcabc", "zz"), None);
    assert_eq!(find_sub("abc", ""), Some(0));
    assert_eq!(find_sub("", "a"), None);
}

#[test]
fn trim_strips_only_surrounding_spaces() {
    assert_eq!(trim_spaces("  a b  "), "a b");
    assert_eq!(trim_spaces(""), "");
    assert_eq!(trim_spaces("   "), "");
    assert_eq!(trim_spaces("x"), "x");
}

#[test]
fn exact_query_quotes_both_terms() {
    assert_eq!(
        exact_search_query("The Beatles feat. Billy Preston", "Let It Be"),
        "artist:\"The Beatles\" AND releasegroup:\"Let It Be\" AND primarytype:album"
    );
}

#[test]
fn fuzzy_query_marks_both_terms() {
    assert_eq!(
        fuzzy_search_query("The Beatles", "Let It Be"),
        "artist:The Beatles~ AND releasegroup:Let It Be~ AND primarytype:album"
    );
}

#[test]
fn request_path_percent_encodes_the_query() {
    let p = search_request_path("artist:\"a b\"");
    assert_eq!(p, "/release-group?query=artist%3A%22a%20b%22&fmt=json&limit=10");
}
