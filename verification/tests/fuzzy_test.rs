use beatcollector::fuzzy::{
    levenshtein_distance, names_match, similarity_exceeds, similarity_permille,
};

#[test]
fn levenshtein_known_distances() {
    assert_eq!(levenshtein_distance("kitten", "sitting"), 3);
    assert_eq!(levenshtein_distance("", "abc"), 3);
    assert_eq!(levenshtein_distance("abc", ""), 3);
    assert_eq!(levenshtein_distance("", ""), 0);
    assert_eq!(levenshtein_distance("abc", "abc"), 0);
    assert_eq!(levenshtein_distance("abc", "abd"), 1);
    assert_eq!(levenshtein_distance("The Beatles", "Beatles"), 4);
}

#[test]
fn similarity_of_prefixed_name_is_strictly_between_half_and_one() {
    let s = similarity_permille("The Beatles", "Beatles");
    assert!(s > 500);
    assert!(s < 1000);
    // distance 4 over the longer length 11: floor(7000 / 11)
    assert_eq!(s, 636);
}

#[test]
fn similarity_of_empty_strings_is_one() {
    assert_eq!(similarity_permille("", ""), 1000);
}

#[test]
fn similarity_of_equal_strings_is_one() {
    assert_eq!(similarity_permille("abc", "abc"), 1000);
}

#[test]
fn similarity_threshold_comparison_is_exact() {
    // distance 1 over the longer length 11: similarity 10/11, strictly
    // above both acceptance thresholds
    assert!(similarity_exceeds("Abbey Roade", "Abbey Road", 85, 100));
    assert!(similarity_exceeds("Abbey Roade", "Abbey Road", 80, 100));
    assert!(!similarity_exceeds("Abbey Road", "Abbey Roadhouse", 85, 100));
    // equal strings always exceed any threshold below one
    assert!(similarity_exceeds("x", "x", 85, 100));
    // the prefixed name scores 7/11, below 0.8
    assert!(!similarity_exceeds("The Beatles", "Beatles", 80, 100));
}

#[test]
fn names_match_is_case_insensitive() {
    assert!(names_match("The Beatles", "the beatles", 85, 100));
    assert!(names_match("ABBEY ROAD", "abbey road", 85, 100));
    assert!(names_match("Abbey Roade", "abbey road", 85, 100));
    assert!(!names_match("Abbey Road", "Revolver", 85, 100));
}
