use autotube::rss::{
    check_entry_pattern, first_urls, parse_recent, since, sort_recent, top_n, urls_since,
    FeedError,
};
use autotube::time::Timestamp;

fn entry(id: &str, published: &str) -> String {
    format!(
        "<entry>\n <id>yt:video:{id}</id>\n <title>Some title</title>\n <link rel=\"alternate\" href=\"https://www.youtube.com/watch?v={id}\"/>\n <author><name>Somebody</name></author>\n <published>{published}</published>\n <updated>2024-05-01T00:00:00+00:00</updated>\n</entry>\n"
    )
}

fn url(id: &str) -> String {
    format!("https://www.youtube.com/watch?v={id}")
}

fn five_entries() -> String {
    let mut feed = String::from("<?xml version=\"1.0\" encoding=\"UTF-8\"?>\n<feed>\n");
    feed.push_str(&entry("aaaaaaaaaa3", "2024-03-03T10:00:00+00:00"));
    feed.push_str(&entry("aaaaaaaaaa5", "2024-03-05T10:00:00+00:00"));
    feed.push_str(&entry("aaaaaaaaaa1", "2024-03-01T10:00:00+00:00"));
    feed.push_str(&entry("aaaaaaaaaa4", "2024-03-04T10:00:00+00:00"));
    feed.push_str(&entry("aaaaaaaaaa2", "2024-03-02T10:00:00+00:00"));
    feed.push_str("</feed>\n");
    feed
}

// 2024-03-01T10:00:00Z
const MARCH_FIRST: i64 = 1_709_287_200;
const DAY: i64 = 86_400;

fn at(secs: i64) -> Timestamp {
    Timestamp { secs, nanos: 0 }
}

#[test]
fn parse_recent_orders_newest_first() {
    let entries = parse_recent(&five_entries()).unwrap();
    let expected = vec![
        (at(MARCH_FIRST + 4 * DAY), url("aaaaaaaaaa5")),
        (at(MARCH_FIRST + 3 * DAY), url("aaaaaaaaaa4")),
        (at(MARCH_FIRST + 2 * DAY), url("aaaaaaaaaa3")),
        (at(MARCH_FIRST + DAY), url("aaaaaaaaaa2")),
        (at(MARCH_FIRST), url("aaaaaaaaaa1")),
    ];
    assert_eq!(entries, expected);
}

#[test]
fn parse_recent_of_feed_without_entries_is_empty() {
    assert_eq!(parse_recent("<feed></feed>").unwrap(), vec![]);
    assert_eq!(parse_recent("").unwrap(), vec![]);
}

#[test]
fn parse_recent_reads_the_offset_of_the_time() {
    let feed = entry("bbbbbbbbbbb", "2024-03-01T12:00:00+02:00");
    let entries = parse_recent(&feed).unwrap();
    assert_eq!(entries, vec![(at(MARCH_FIRST), url("bbbbbbbbbbb"))]);
}

#[test]
fn parse_recent_fails_on_one_bad_time() {
    let mut feed = five_entries();
    feed.push_str(&entry("ccccccccccc", "2024-13-01T10:00:00+00:00"));
    match parse_recent(&feed) {
        Err(FeedError::Date(text)) => assert_eq!(text, "2024-13-01T10:00:00+00:00"),
        other => panic!("expected a date error, got {other:?}"),
    }
    assert!(matches!(top_n(&feed, 2), Err(FeedError::Date(_))));
    assert!(matches!(since(&feed, at(0)), Err(FeedError::Date(_))));
}

#[test]
fn parse_recent_skips_what_is_no_entry() {
    // An identifier of ten characters does not make an item record.
    let feed = entry("short67890", "2024-03-01T10:00:00+00:00");
    assert_eq!(parse_recent(&feed).unwrap(), vec![]);
}

#[test]
fn top_n_takes_the_most_recent() {
    let feed = five_entries();
    assert_eq!(top_n(&feed, 0).unwrap(), Vec::<String>::new());
    assert_eq!(
        top_n(&feed, 3).unwrap(),
        vec![url("aaaaaaaaaa5"), url("aaaaaaaaaa4"), url("aaaaaaaaaa3")]
    );
    assert_eq!(top_n(&feed, 5).unwrap().len(), 5);
    assert_eq!(top_n(&feed, 200).unwrap().len(), 5);
}

#[test]
fn since_keeps_the_boundary_entry() {
    let feed = five_entries();
    // The moment of the second most recent entry.
    let boundary = at(MARCH_FIRST + 3 * DAY);
    assert_eq!(
        since(&feed, boundary).unwrap(),
        vec![url("aaaaaaaaaa5"), url("aaaaaaaaaa4")]
    );
    // One nanosecond later the boundary entry is out.
    let later = Timestamp { secs: MARCH_FIRST + 3 * DAY, nanos: 1 };
    assert_eq!(since(&feed, later).unwrap(), vec![url("aaaaaaaaaa5")]);
}

#[test]
fn since_past_the_newest_is_empty_and_since_the_oldest_is_all() {
    let feed = five_entries();
    assert_eq!(
        since(&feed, at(MARCH_FIRST + 4 * DAY + 1)).unwrap(),
        Vec::<String>::new()
    );
    assert_eq!(since(&feed, at(MARCH_FIRST)).unwrap().len(), 5);
}

#[test]
fn sort_recent_keeps_ties_in_their_order() {
    let entries = vec![
        (at(5), String::from("a")),
        (at(9), String::from("b")),
        (at(5), String::from("c")),
        (at(9), String::from("d")),
        (Timestamp { secs: 5, nanos: 7 }, String::from("e")),
    ];
    let sorted = sort_recent(entries);
    let urls: Vec<&str> = sorted.iter().map(|e| e.1.as_str()).collect();
    assert_eq!(urls, vec!["b", "d", "e", "a", "c"]);
}

#[test]
fn first_urls_and_urls_since_select_from_a_list() {
    let entries = vec![
        (at(30), String::from("x")),
        (at(20), String::from("y")),
        (at(10), String::from("z")),
    ];
    assert_eq!(first_urls(&entries, 2), vec!["x", "y"]);
    assert_eq!(first_urls(&entries, 0), Vec::<String>::new());
    assert_eq!(first_urls(&entries, 9), vec!["x", "y", "z"]);
    assert_eq!(urls_since(&entries, at(20)), vec!["x", "y"]);
    assert_eq!(urls_since(&entries, at(31)), Vec::<String>::new());
    assert_eq!(urls_since(&entries, at(10)), vec!["x", "y", "z"]);
}

#[test]
fn entry_pattern_is_taken_by_the_matcher() {
    assert_eq!(check_entry_pattern(), Ok(()));
    // So no reading fails of the pattern.
    assert!(parse_recent("anything").is_ok());
    assert!(top_n("anything", 1).is_ok());
    assert!(since("anything", at(0)).is_ok());
}

#[test]
fn feed_errors_say_what_went_wrong() {
    assert_eq!(
        FeedError::Date(String::from("2024-13-01T10:00:00+00:00")).message(),
        "Couldn't parse publication date 2024-13-01T10:00:00+00:00 into valid chrono date"
    );
    assert_eq!(
        FeedError::Pattern.message(),
        "Couldn't compile the pattern of a feed entry"
    );
}
