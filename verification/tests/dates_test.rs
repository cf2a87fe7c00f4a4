use beatcollector::dates::parse_release_date;
use beatcollector::model::ReleaseDate;

#[test]
fn parses_full_dates() {
    assert_eq!(
        parse_release_date("1999-12-31"),
        Some(ReleaseDate { year: 1999, month: 12, day: 31 })
    );
    assert_eq!(
        parse_release_date("2000-02-29"),
        Some(ReleaseDate { year: 2000, month: 2, day: 29 })
    );
}

#[test]
fn rejects_impossible_dates() {
    assert_eq!(parse_release_date("1999-02-29"), None);
    assert_eq!(parse_release_date("2021-13-01"), None);
    assert_eq!(parse_release_date("2021-04-31"), None);
    assert_eq!(parse_release_date("2021-00-10"), None);
    assert_eq!(parse_release_date("2021-05-00"), None);
}

#[test]
fn completes_partial_dates_with_first_month_and_day() {
    assert_eq!(parse_release_date("2021"), Some(ReleaseDate { year: 2021, month: 1, day: 1 }));
    assert_eq!(
        parse_release_date("2021-05"),
        Some(ReleaseDate { year: 2021, month: 5, day: 1 })
    );
}

#[test]
fn rejects_malformed_text() {
    assert_eq!(parse_release_date(""), None);
    assert_eq!(parse_release_date("21"), None);
    assert_eq!(parse_release_date("2021-"), None);
    assert_eq!(parse_release_date("2021/05/01"), None);
    assert_eq!(parse_release_date("abcd-ef-gh"), None);
    assert_eq!(parse_release_date("2021-5-1"), None);
}
