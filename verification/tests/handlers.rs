use autotube::handlers::{
    feed_url_from, feed_url_of, follow_job, follow_page, follow_reply, follow_source,
    ondemand_job, ondemand_reply, validate_youtube_url, validate_youtube_video_url, Insert,
    PageFetch, UrlError, Validated, YouTubeURL, FEED_LINK,
};
use autotube::trigger::{Frequencies, Source};

#[test]
fn video_urls_that_are_refused() {
    let should_error = [
        ("abc", "Unsupported or invalid video URL"),
        ("http://vimeo.com", "Unsupported or invalid video URL"),
        ("https://www.google.com", "Unsupported or invalid video URL"),
        (
            "youtube.org/watch?v=0123456789a",
            "Unsupported or invalid video URL",
        ),
        (
            "https://www.youtube.com/watch?v=0123456789",
            "Video ID parameter missing from or incorrect in YouTube URL",
        ),
        (
            "https://www.youtube.com/watch?v=0123456789ab",
            "Video ID parameter missing from or incorrect in YouTube URL",
        ),
        (
            "https://www.youtube.com/watch?k=0123456789a",
            "Video ID parameter missing from or incorrect in YouTube URL",
        ),
        (
            "https://www.youtube.com/watch?v=0123456789&list=abcdefghijklmnopqrstuvwxyzeRgBdnBM",
            "Video ID parameter missing from or incorrect in YouTube URL",
        ),
    ];
    for (url, exp_err) in &should_error {
        let refused = validate_youtube_url(YouTubeURL::Video, url);
        assert!(refused.is_err_and(|e| e.message() == *exp_err), "{url}");
    }
}

#[test]
fn video_urls_that_are_taken() {
    let should_succeed = [
        (
            "youtube.com/watch?v=0123456789a",
            "https://www.youtube.com/watch?v=0123456789a",
        ),
        (
            "www.youtube.com/watch?v=0123456789a",
            "https://www.youtube.com/watch?v=0123456789a",
        ),
        (
            "http://youtube.com/watch?v=0123456789a",
            "https://www.youtube.com/watch?v=0123456789a",
        ),
        (
            "http://www.youtube.com/watch?v=0123456789a",
            "https://www.youtube.com/watch?v=0123456789a",
        ),
        (
            "https://www.youtube.com/watch?v=0123456789a",
            "https://www.youtube.com/watch?v=0123456789a",
        ),
        (
            "https://www.youtube.com/watch?v=0123456789a&",
            "https://www.youtube.com/watch?v=0123456789a",
        ),
        (
            "https://www.youtube.com/watch?v=0123456789a&other=ignored&more=alsoignored",
            "https://www.youtube.com/watch?v=0123456789a",
        ),
    ];
    for (url, exp_ret) in &should_succeed {
        let taken = validate_youtube_url(YouTubeURL::Video, url);
        assert_eq!(taken, Ok(Validated::Video(String::from(*exp_ret))), "{url}");
    }
}

#[test]
fn empty_urls_are_refused_as_empty() {
    assert_eq!(
        validate_youtube_url(YouTubeURL::Video, ""),
        Err(UrlError::Empty(YouTubeURL::Video))
    );
    assert_eq!(
        UrlError::Empty(YouTubeURL::Video).message(),
        "Empty YouTube video URL"
    );
    assert_eq!(
        validate_youtube_url(YouTubeURL::Channel, "").unwrap_err().message(),
        "Empty YouTube channel URL"
    );
}

#[test]
fn video_parameter_is_found_among_others() {
    assert_eq!(
        validate_youtube_video_url("youtube.com/watch?t=10&v=0123456789a&v=aaaaaaaaaaa"),
        Ok(String::from("https://www.youtube.com/watch?v=0123456789a"))
    );
    assert_eq!(
        validate_youtube_video_url("youtube.com/watch?"),
        Err(UrlError::VideoId)
    );
    // The length of the parameter counts in bytes.
    assert_eq!(
        validate_youtube_video_url("youtube.com/watch?v=012345678é"),
        Ok(String::from("https://www.youtube.com/watch?v=012345678é"))
    );
    assert_eq!(
        validate_youtube_video_url("youtube.com/watch?v=0123456789é"),
        Err(UrlError::VideoId)
    );
    // Any eighteen bytes are skipped.
    assert_eq!(
        validate_youtube_video_url("0123456789abcdéfgv=0123456789a"),
        Ok(String::from("https://www.youtube.com/watch?v=0123456789a"))
    );
}

#[test]
fn repeated_fronts_are_taken_off() {
    assert_eq!(
        validate_youtube_url(
            YouTubeURL::Video,
            "https://https://http://www.www.youtube.com/watch?v=0123456789a"
        ),
        Ok(Validated::Video(String::from(
            "https://www.youtube.com/watch?v=0123456789a"
        )))
    );
    // In the other order the scheme stays.
    assert_eq!(
        validate_youtube_url(YouTubeURL::Video, "http://https://youtube.com/watch?v=0123456789a"),
        Err(UrlError::Unsupported(YouTubeURL::Video))
    );
}

#[test]
fn channel_urls_give_the_page_in_lowercase() {
    assert_eq!(
        validate_youtube_url(YouTubeURL::Channel, "https://www.youtube.com/@SomeChannel/videos?x=1"),
        Ok(Validated::ChannelPage(String::from(
            "https://www.youtube.com/@somechannel"
        )))
    );
    assert_eq!(
        validate_youtube_url(YouTubeURL::Channel, "youtube.com/@ÄBC"),
        Ok(Validated::ChannelPage(String::from("https://www.youtube.com/@äbc")))
    );
    assert_eq!(
        validate_youtube_url(YouTubeURL::Channel, "youtube.com/@"),
        Ok(Validated::ChannelPage(String::from("https://www.youtube.com/@")))
    );
    let refused = validate_youtube_url(YouTubeURL::Channel, "https://www.youtube.com/watch?v=0123456789a");
    assert_eq!(refused, Err(UrlError::Unsupported(YouTubeURL::Channel)));
    assert_eq!(refused.unwrap_err().message(), "Unsupported or invalid channel URL");
    assert_eq!(
        validate_youtube_url(YouTubeURL::Video, "https://www.youtube.com/@SomeChannel"),
        Err(UrlError::Unsupported(YouTubeURL::Video))
    );
}

fn page_with(id_rest: &str) -> String {
    format!("<html><head><title>é</title>{FEED_LINK}{id_rest}\"><link rel=\"canonical\"></head></html>")
}

#[test]
fn feed_url_is_read_from_the_page() {
    assert_eq!(
        feed_url_of(&page_with("abcdefghijklmnopqrstuv")),
        Ok(String::from(
            "https://www.youtube.com/feeds/videos.xml?channel_id=UCabcdefghijklmnopqrstuv"
        ))
    );
    // Seventy-six bytes are taken, whatever they hold.
    assert_eq!(
        feed_url_of(&page_with("short")),
        Ok(String::from(
            "https://www.youtube.com/feeds/videos.xml?channel_id=UCshort\"><link rel=\"cano"
        ))
    );
    // The first link counts.
    let twice = format!("{}{}", page_with("aaaaaaaaaaaaaaaaaaaaaa"), page_with("bbbbbbbbbbbbbbbbbbbbbb"));
    assert_eq!(
        feed_url_of(&twice),
        Ok(String::from(
            "https://www.youtube.com/feeds/videos.xml?channel_id=UCaaaaaaaaaaaaaaaaaaaaaa"
        ))
    );
}

#[test]
fn feed_url_is_missed_where_the_page_has_none() {
    assert_eq!(feed_url_of("<html></html>"), Err(UrlError::ChannelId));
    assert_eq!(feed_url_of(""), Err(UrlError::ChannelId));
    assert_eq!(
        UrlError::ChannelId.message(),
        "Didn't find channel ID in YouTube channel webpage"
    );
    // The page ends within the identifier.
    assert_eq!(feed_url_of(&format!("{FEED_LINK}abc")), Err(UrlError::CutShort));
    // A character straddles the seventy-sixth byte.
    assert_eq!(
        feed_url_of(&format!("{FEED_LINK}abcdefghijklmnopqrstué and more")),
        Err(UrlError::CutShort)
    );
}

#[test]
fn fetch_outcomes_turn_into_errors() {
    assert_eq!(feed_url_from(&PageFetch::Failed), Err(UrlError::Connect));
    assert_eq!(
        feed_url_from(&PageFetch::Answered { status: 404, body: Some(page_with("abcdefghijklmnopqrstuv")) }),
        Err(UrlError::Status)
    );
    assert_eq!(
        feed_url_from(&PageFetch::Answered { status: 200, body: None }),
        Err(UrlError::Content)
    );
    assert_eq!(
        feed_url_from(&PageFetch::Answered { status: 200, body: Some(page_with("abcdefghijklmnopqrstuv")) }),
        Ok(String::from(
            "https://www.youtube.com/feeds/videos.xml?channel_id=UCabcdefghijklmnopqrstuv"
        ))
    );
    assert_eq!(
        UrlError::Connect.message(),
        "Failed to connect to supplied YouTube channel URL via HTTP"
    );
    assert_eq!(
        UrlError::Status.message(),
        "Supplied YouTube channel URL did not return 200 OK"
    );
    assert_eq!(
        UrlError::Content.message(),
        "Unable to obtain webpage content for supplied YouTube channel URL"
    );
}

#[test]
fn download_on_demand_is_answered() {
    let job = ondemand_job("youtube.com/watch?v=0123456789a").unwrap();
    assert_eq!(job.url(), "https://www.youtube.com/watch?v=0123456789a");
    assert_eq!(job.attempt(), 1);
    let refused = ondemand_job("https://vimeo.com/1").unwrap_err();
    assert_eq!(refused.status, 400);
    assert_eq!(refused.message, "Unsupported or invalid video URL");
    let sent = ondemand_reply(true);
    assert_eq!((sent.status, sent.message.as_str()), (201, "Video submitted to download queue"));
    let unsent = ondemand_reply(false);
    assert_eq!(
        (unsent.status, unsent.message.as_str()),
        (500, "Video could not be submitted to download queue")
    );
}

#[test]
fn following_a_channel_is_answered_step_by_step() {
    let refused = follow_page("daily", "youtube.com/@x").unwrap_err();
    assert_eq!(refused.status, 400);
    assert_eq!(
        refused.message,
        "Field 'argument' needs to be one of: 'often', 'sometimes', 'rarely'"
    );
    // The frequency is looked at before the URL.
    assert_eq!(follow_page("daily", "").unwrap_err().message, refused.message);
    let bad_url = follow_page("often", "youtube.com/watch?v=0123456789a").unwrap_err();
    assert_eq!((bad_url.status, bad_url.message.as_str()), (400, "Unsupported or invalid channel URL"));

    let (freq, page_url) = follow_page("sometimes", "https://www.youtube.com/@Some/about").unwrap();
    assert_eq!(freq, Frequencies::Sometimes);
    assert_eq!(page_url, "https://www.youtube.com/@some");

    let no_page = follow_source(freq, page_url.clone(), &PageFetch::Failed).unwrap_err();
    assert_eq!(
        (no_page.status, no_page.message.as_str()),
        (400, "Failed to connect to supplied YouTube channel URL via HTTP")
    );
    let fetched = PageFetch::Answered { status: 200, body: Some(page_with("abcdefghijklmnopqrstuv")) };
    let source = follow_source(freq, page_url, &fetched).unwrap();
    assert_eq!(
        source,
        Source {
            name: String::from("https://www.youtube.com/@some"),
            platform: String::from("youtube"),
            feed_url: String::from(
                "https://www.youtube.com/feeds/videos.xml?channel_id=UCabcdefghijklmnopqrstuv"
            ),
            check_frequency: String::from("sometimes"),
            last_checked: None,
        }
    );

    let job = follow_job(&source, 3, Insert::Done).unwrap();
    assert_eq!(job.rss_url(), source.feed_url);
    assert_eq!(job.download_as_of(), 3);
    let duplicate = follow_job(&source, 3, Insert::Duplicate).unwrap_err();
    assert_eq!(
        (duplicate.status, duplicate.message.as_str()),
        (400, "Submitted channel is already being followed")
    );
    let failed = follow_job(&source, 3, Insert::Failed).unwrap_err();
    assert_eq!(
        (failed.status, failed.message.as_str()),
        (500, "Inserting new channel to follow into database failed")
    );

    let started = follow_reply(&source.name, true);
    assert_eq!(
        (started.status, started.message.as_str()),
        (201, "Started following channel https://www.youtube.com/@some")
    );
    let unsent = follow_reply(&source.name, false);
    assert_eq!(
        (unsent.status, unsent.message.as_str()),
        (500, "Initial download of new channel could not be sent to queue")
    );
}
