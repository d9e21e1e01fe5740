//! The intake's decisions: which URLs are taken, what they are turned into,
//! and what a caller is told.

use crate::jobs::{DownloadView, FollowView, JobDownloadVideo, JobFollowChannel};
use crate::text::{
    append_chars, begins_with, char_lists, chars_of, first_match, first_occurrence,
    leading_bytes, lemma_first_kept, lemma_first_occurrence, lemma_none_kept, lowercase,
    occurs_at, occurs_in, skip_bytes, split, split_on, string_of, strip_leading, takes_bytes,
    to_lowercase, up_to_first, up_to_first_of, utf8_len, without_leading,
};
use crate::trigger::{Frequencies, Source, SourceView};
use vstd::prelude::*;

verus! {

/// What a URL is taken to point at.
#[derive(Clone, Copy, Debug, PartialEq, Eq, Structural)]
pub enum YouTubeURL {
    Video,
    Channel,
}

impl YouTubeURL {
    pub open spec fn spec_name(self) -> Seq<char> {
        match self {
            YouTubeURL::Video => "video"@,
            YouTubeURL::Channel => "channel"@,
        }
    }

    pub fn name(&self) -> (name: &'static str)
        ensures
            name@ == self.spec_name(),
    {
        match self {
            YouTubeURL::Video => "video",
            YouTubeURL::Channel => "channel",
        }
    }
}

/// Why a URL is not taken.
#[derive(Clone, Copy, Debug, PartialEq, Eq, Structural)]
pub enum UrlError {
    /// The URL is empty.
    Empty(YouTubeURL),
    /// The URL does not point where it should.
    Unsupported(YouTubeURL),
    /// The URL of a video holds no parameter with a video's identifier.
    VideoId,
    /// The channel's page could not be asked for.
    Connect,
    /// The channel's page was not served.
    Status,
    /// The channel's page could not be read.
    Content,
    /// The channel's page does not link to its feed.
    ChannelId,
    /// The channel's page ends within the link to its feed.
    CutShort,
}

impl UrlError {
    pub open spec fn spec_message(self) -> Seq<char> {
        match self {
            UrlError::Empty(kind) => "Empty YouTube "@ + kind.spec_name() + " URL"@,
            UrlError::Unsupported(kind) => "Unsupported or invalid "@ + kind.spec_name() + " URL"@,
            UrlError::VideoId => "Video ID parameter missing from or incorrect in YouTube URL"@,
            UrlError::Connect => "Failed to connect to supplied YouTube channel URL via HTTP"@,
            UrlError::Status => "Supplied YouTube channel URL did not return 200 OK"@,
            UrlError::Content => "Unable to obtain webpage content for supplied YouTube channel URL"@,
            UrlError::ChannelId => "Didn't find channel ID in YouTube channel webpage"@,
            UrlError::CutShort => "YouTube channel webpage ends within the link to the channel's feed"@,
        }
    }

    /// What the caller is told.
    pub fn message(&self) -> (text: String)
        ensures
            text@ == self.spec_message(),
    {
        match self {
            UrlError::Empty(kind) => join3("Empty YouTube ", kind.name(), " URL"),
            UrlError::Unsupported(kind) => join3("Unsupported or invalid ", kind.name(), " URL"),
            UrlError::VideoId => "Video ID parameter missing from or incorrect in YouTube URL".to_owned(),
            UrlError::Connect => "Failed to connect to supplied YouTube channel URL via HTTP".to_owned(),
            UrlError::Status => "Supplied YouTube channel URL did not return 200 OK".to_owned(),
            UrlError::Content => "Unable to obtain webpage content for supplied YouTube channel URL".to_owned(),
            UrlError::ChannelId => "Didn't find channel ID in YouTube channel webpage".to_owned(),
            UrlError::CutShort => "YouTube channel webpage ends within the link to the channel's feed".to_owned(),
        }
    }
}

/// `a`, `b` and `c` in a row.
fn join3(a: &str, b: &str, c: &str) -> (text: String)
    ensures
        text@ == a@ + b@ + c@,
{
    let mut chars = chars_of(a);
    append_chars(&mut chars, &chars_of(b));
    append_chars(&mut chars, &chars_of(c));
    let text = string_of(&chars, 0, chars.len());
    proof {
        assert(text@ =~= chars@);
    }
    text
}

/// The front of a video's URL once scheme and `www.` are off.
pub const VIDEO_FRONT: &'static str = "youtube.com/watch?";

/// The bytes of `VIDEO_FRONT`.
pub const VIDEO_FRONT_BYTES: usize = 18;

/// The front of a channel's URL once scheme and `www.` are off.
pub const CHANNEL_FRONT: &'static str = "youtube.com/@";

/// The front of every validated URL.
pub const CANONICAL_FRONT: &'static str = "https://www.";

/// The front of a validated video URL, up to the parameter with the video's
/// identifier.
pub const WATCH_FRONT: &'static str = "https://www.youtube.com/watch?";

/// The bytes of the parameter that holds a video's identifier: `v=` and the
/// eleven of the identifier.
pub const VIDEO_PARAM_BYTES: usize = 13;

/// How a channel's page links to its feed, up to the first two characters of
/// the channel's identifier.
pub const FEED_LINK: &'static str =
    "<link rel=\"alternate\" type=\"application/rss+xml\" title=\"RSS\" href=\"https://www.youtube.com/feeds/videos.xml?channel_id=UC";

/// Where the feed's URL begins within `FEED_LINK`.
pub const FEED_LINK_HREF: usize = 67;

/// The bytes of a channel's identifier that follow `FEED_LINK`.
pub const CHANNEL_ID_REST_BYTES: usize = 22;

/// A parameter that holds a video's identifier.
pub open spec fn is_video_param(param: Seq<char>) -> bool {
    utf8_len(param) == VIDEO_PARAM_BYTES && occurs_at(param, "v="@, 0)
}

/// The first parameter of `query` that holds a video's identifier.
pub open spec fn video_param(query: Seq<char>) -> Option<Seq<char>> {
    let found = split_on(query, '&').filter(|param: Seq<char>| is_video_param(param));
    if found.len() == 0 {
        None
    } else {
        Some(found[0])
    }
}

/// The validated form of a video's URL that begins with `VIDEO_FRONT`, or
/// with any other eighteen bytes.
pub open spec fn valid_video_url(url: Seq<char>) -> Result<Seq<char>, UrlError> {
    let front = leading_bytes(url, VIDEO_FRONT_BYTES as nat).unwrap();
    match video_param(url.skip(front.len() as int)) {
        Some(param) => Ok(WATCH_FRONT@ + param),
        None => Err(UrlError::VideoId),
    }
}

/// Looks for the parameter with the video's identifier in what follows the
/// first eighteen bytes of `url`, and gives the URL of the video in its
/// validated form. The caller has seen to it that `url` begins with
/// `VIDEO_FRONT`; all that is needed is that it has eighteen bytes to skip.
pub fn validate_youtube_video_url(url: &str) -> (r: Result<String, UrlError>)
    requires
        leading_bytes(url@, VIDEO_FRONT_BYTES as nat).is_some(),
    ensures
        match r {
            Ok(valid) => valid_video_url(url@) == Ok::<Seq<char>, UrlError>(valid@),
            Err(e) => valid_video_url(url@) == Err::<Seq<char>, UrlError>(e),
        },
{
    let chars = chars_of(url);
    proof {
        assert(chars@.skip(0) =~= chars@);
    }
    let from = match skip_bytes(&chars, 0, VIDEO_FRONT_BYTES) {
        Some(from) => from,
        None => { return Err(UrlError::VideoId); },
    };
    let query = crate::text::slice_of(&chars, from, chars.len());
    proof {
        assert(query@ =~= url@.skip(from as int));
        assert(chars@.subrange(0, from as int).len() == from);
    }
    let params = split(&query, '&');
    let mark = chars_of("v=");
    let ghost fields = char_lists(params@);
    let ghost wanted = |param: Seq<char>| is_video_param(param);
    let mut i: usize = 0;
    while i < params.len()
        invariant
            i <= params.len(),
            fields == char_lists(params@),
            fields == split_on(
                url@.skip(leading_bytes(url@, VIDEO_FRONT_BYTES as nat).unwrap().len() as int),
                '&',
            ),
            wanted == |param: Seq<char>| is_video_param(param),
            mark@ == "v="@,
            forall|j: int| 0 <= j < i ==> !wanted(#[trigger] fields[j]),
        decreases params.len() - i,
    {
        if takes_bytes(&params[i], VIDEO_PARAM_BYTES) && begins_with(&params[i], &mark) {
            let mut valid = chars_of(WATCH_FRONT);
            append_chars(&mut valid, &params[i]);
            let text = string_of(&valid, 0, valid.len());
            proof {
                assert(text@ =~= valid@);
                assert(wanted(fields[i as int]));
                lemma_first_kept(fields, wanted, i as int);
            }
            return Ok(text);
        }
        i += 1;
    }
    proof {
        lemma_none_kept(fields, wanted);
    }
    Err(UrlError::VideoId)
}

/// `url` without what may stand before the host: `https://`, then `http://`,
/// then `www.`, each as often as it stands there.
pub open spec fn bare_url(url: Seq<char>) -> Seq<char> {
    without_leading(without_leading(without_leading(url, "https://"@), "http://"@), "www."@)
}

/// The URL of the page of the channel that `bare` names: the channel's name
/// ends at the first `/`, and the whole is in lowercase.
pub open spec fn channel_page_url(bare: Seq<char>) -> Seq<char> {
    let front = bare.take(CHANNEL_FRONT@.len() as int);
    let name = up_to_first(bare.skip(CHANNEL_FRONT@.len() as int), '/');
    lowercase(CANONICAL_FRONT@ + front + name)
}

/// A URL that was taken.
#[derive(Debug, PartialEq, Eq)]
pub enum Validated {
    /// The URL of a video, in its validated form.
    Video(String),
    /// The URL of a channel's page. The page is yet to be asked for its
    /// feed.
    ChannelPage(String),
}

pub enum ValidatedView {
    Video(Seq<char>),
    ChannelPage(Seq<char>),
}

impl View for Validated {
    type V = ValidatedView;

    open spec fn view(&self) -> ValidatedView {
        match self {
            Validated::Video(url) => ValidatedView::Video(url@),
            Validated::ChannelPage(url) => ValidatedView::ChannelPage(url@),
        }
    }
}

/// What becomes of a URL that is to point at a video or at a channel.
pub open spec fn valid_url(kind: YouTubeURL, url: Seq<char>) -> Result<ValidatedView, UrlError> {
    if url.len() == 0 {
        Err(UrlError::Empty(kind))
    } else {
        let bare = bare_url(url);
        match kind {
            YouTubeURL::Video => if occurs_at(bare, VIDEO_FRONT@, 0) {
                match valid_video_url(bare) {
                    Ok(valid) => Ok(ValidatedView::Video(valid)),
                    Err(e) => Err(e),
                }
            } else {
                Err(UrlError::Unsupported(kind))
            },
            YouTubeURL::Channel => if occurs_at(bare, CHANNEL_FRONT@, 0) {
                Ok(ValidatedView::ChannelPage(channel_page_url(bare)))
            } else {
                Err(UrlError::Unsupported(kind))
            },
        }
    }
}

/// A text that begins with a text of one-byte characters has as many bytes
/// to skip.
proof fn lemma_front_bytes(s: Seq<char>, front: Seq<char>, n: int)
    requires
        occurs_at(s, front, 0),
        0 <= n <= front.len(),
        forall|i: int| 0 <= i < front.len() ==> (#[trigger] front[i] as u32) < 0x80,
    ensures
        leading_bytes(s, n as nat) == Some(s.take(n)),
    decreases n,
{
    if n == 0 {
        assert(s.take(0) =~= Seq::empty());
    } else {
        assert(s[0] == front.subrange(0, front.len() as int)[0]);
        assert(s[0] == front[0]);
        let rest = s.drop_first();
        let front_rest = front.drop_first();
        assert(rest.subrange(0, front_rest.len() as int) =~= front_rest);
        assert forall|i: int| 0 <= i < front_rest.len() implies (#[trigger] front_rest[i] as u32)
            < 0x80 by {
            assert(front_rest[i] == front[i + 1]);
        }
        lemma_front_bytes(rest, front_rest, n - 1);
        assert(seq![s[0]] + rest.take(n - 1) =~= s.take(n));
    }
}

/// Takes a URL that is to point at a video or at a channel: without what
/// may stand before the host it has to begin as such a URL does.
pub fn validate_youtube_url(kind: YouTubeURL, url: &str) -> (r: Result<Validated, UrlError>)
    ensures
        match r {
            Ok(taken) => valid_url(kind, url@) == Ok::<ValidatedView, UrlError>(taken@),
            Err(e) => valid_url(kind, url@) == Err::<ValidatedView, UrlError>(e),
        },
{
    let chars = chars_of(url);
    if chars.len() == 0 {
        return Err(UrlError::Empty(kind));
    }
    let secure = strip_leading(&chars, &chars_of("https://"));
    let plain = strip_leading(&secure, &chars_of("http://"));
    let bare = strip_leading(&plain, &chars_of("www."));
    match kind {
        YouTubeURL::Video => {
            let front = chars_of(VIDEO_FRONT);
            if begins_with(&bare, &front) {
                let text = string_of(&bare, 0, bare.len());
                proof {
                    assert(text@ =~= bare@);
                    reveal_strlit("youtube.com/watch?");
                    lemma_front_bytes(bare@, VIDEO_FRONT@, 18);
                }
                match validate_youtube_video_url(text.as_str()) {
                    Ok(valid) => Ok(Validated::Video(valid)),
                    Err(e) => Err(e),
                }
            } else {
                Err(UrlError::Unsupported(kind))
            }
        },
        YouTubeURL::Channel => {
            let front = chars_of(CHANNEL_FRONT);
            if begins_with(&bare, &front) {
                let tail = crate::text::slice_of(&bare, front.len(), bare.len());
                proof {
                    assert(tail@ =~= bare@.skip(CHANNEL_FRONT@.len() as int));
                    assert(bare@.subrange(0, front@.len() as int) =~= bare@.take(
                        CHANNEL_FRONT@.len() as int,
                    ));
                }
                let name = up_to_first_of(&tail, '/');
                let mut page = chars_of(CANONICAL_FRONT);
                append_chars(&mut page, &front);
                append_chars(&mut page, &name);
                let text = string_of(&page, 0, page.len());
                proof {
                    assert(text@ =~= page@);
                }
                Ok(Validated::ChannelPage(to_lowercase(text.as_str())))
            } else {
                Err(UrlError::Unsupported(kind))
            }
        },
    }
}


/// What came of asking for a channel's page.
#[derive(Debug, PartialEq, Eq)]
pub enum PageFetch {
    /// No answer.
    Failed,
    /// An answer with its status, and its body where that could be read.
    Answered { status: u16, body: Option<String> },
}

pub enum PageFetchView {
    Failed,
    Answered { status: u16, body: Option<Seq<char>> },
}

impl View for PageFetch {
    type V = PageFetchView;

    open spec fn view(&self) -> PageFetchView {
        match self {
            PageFetch::Failed => PageFetchView::Failed,
            PageFetch::Answered { status, body } => PageFetchView::Answered {
                status: *status,
                body: match body {
                    Some(page) => Some(page@),
                    None => None,
                },
            },
        }
    }
}

/// The status of a page that was served.
pub const OK: u16 = 200;

/// The URL of the feed that the page `page` links to: what follows `href="`
/// in the first `FEED_LINK` of the page, up to the end of the channel's
/// identifier.
pub open spec fn feed_url_in(page: Seq<char>) -> Result<Seq<char>, UrlError> {
    if !occurs_in(page, FEED_LINK@) {
        Err(UrlError::ChannelId)
    } else {
        let at = first_occurrence(page, FEED_LINK@);
        let end = at + FEED_LINK@.len();
        match leading_bytes(page.skip(end), CHANNEL_ID_REST_BYTES as nat) {
            Some(rest) => Ok(page.subrange(at + FEED_LINK_HREF, end) + rest),
            None => Err(UrlError::CutShort),
        }
    }
}

/// The URL of a channel's feed, from what came of asking for its page.
pub open spec fn fetched_feed_url(fetched: PageFetchView) -> Result<Seq<char>, UrlError> {
    match fetched {
        PageFetchView::Failed => Err(UrlError::Connect),
        PageFetchView::Answered { status, body } => if status != OK {
            Err(UrlError::Status)
        } else {
            match body {
                None => Err(UrlError::Content),
                Some(page) => feed_url_in(page),
            }
        },
    }
}

/// The URL of the feed that a channel's page links to.
pub fn feed_url_of(page: &str) -> (r: Result<String, UrlError>)
    ensures
        match r {
            Ok(feed_url) => feed_url_in(page@) == Ok::<Seq<char>, UrlError>(feed_url@),
            Err(e) => feed_url_in(page@) == Err::<Seq<char>, UrlError>(e),
        },
{
    let chars = chars_of(page);
    let link = chars_of(FEED_LINK);
    proof {
        reveal_strlit(
            "<link rel=\"alternate\" type=\"application/rss+xml\" title=\"RSS\" href=\"https://www.youtube.com/feeds/videos.xml?channel_id=UC",
        );
        assert(link@.len() == 121);
    }
    let at = match first_match(&chars, &link) {
        Some(at) => at,
        None => { return Err(UrlError::ChannelId); },
    };
    proof {
        lemma_first_occurrence(chars@, link@, at as int);
        assert(at + link.len() <= chars.len());
    }
    let end = at + link.len();
    match skip_bytes(&chars, end, CHANNEL_ID_REST_BYTES) {
        Some(to) => {
            let feed_url = string_of(&chars, at + FEED_LINK_HREF, to);
            proof {
                assert(feed_url@ =~= chars@.subrange(at + FEED_LINK_HREF, end as int)
                    + chars@.subrange(end as int, to as int));
            }
            Ok(feed_url)
        },
        None => Err(UrlError::CutShort),
    }
}

/// The URL of a channel's feed, from what came of asking for its page.
pub fn feed_url_from(fetched: &PageFetch) -> (r: Result<String, UrlError>)
    ensures
        match r {
            Ok(feed_url) => fetched_feed_url(fetched@) == Ok::<Seq<char>, UrlError>(feed_url@),
            Err(e) => fetched_feed_url(fetched@) == Err::<Seq<char>, UrlError>(e),
        },
{
    match fetched {
        PageFetch::Failed => Err(UrlError::Connect),
        PageFetch::Answered { status, body } => {
            if *status != OK {
                Err(UrlError::Status)
            } else {
                match body {
                    None => Err(UrlError::Content),
                    Some(page) => feed_url_of(page.as_str()),
                }
            }
        },
    }
}

/// What a caller is told: a status and a message.
#[derive(Debug, PartialEq, Eq)]
pub struct Reply {
    pub status: u16,
    pub message: String,
}

pub struct ReplyView {
    pub status: u16,
    pub message: Seq<char>,
}

impl View for Reply {
    type V = ReplyView;

    open spec fn view(&self) -> ReplyView {
        ReplyView { status: self.status, message: self.message@ }
    }
}

pub const CREATED: u16 = 201;

pub const BAD_REQUEST: u16 = 400;

pub const INTERNAL_SERVER_ERROR: u16 = 500;

/// The platform of every source.
pub const PLATFORM: &'static str = "youtube";

/// What a caller is told whose URL is not taken.
pub open spec fn refusal(e: UrlError) -> ReplyView {
    ReplyView { status: BAD_REQUEST, message: e.spec_message() }
}

/// What a caller is told whose URL is not taken.
pub fn refuse(e: UrlError) -> (reply: Reply)
    ensures
        reply@ == refusal(e),
{
    Reply { status: BAD_REQUEST, message: e.message() }
}

/// The job for a download on demand: a first attempt at the video that `url`
/// points at, unless the URL is not taken.
pub open spec fn ondemand_request(url: Seq<char>) -> Result<DownloadView, ReplyView> {
    match valid_url(YouTubeURL::Video, url) {
        Ok(ValidatedView::Video(valid)) => Ok(DownloadView { url: valid, attempt: 1 }),
        Ok(ValidatedView::ChannelPage(_)) => Err(refusal(UrlError::Unsupported(YouTubeURL::Video))),
        Err(e) => Err(refusal(e)),
    }
}

/// The job for a download on demand, or what the caller is told instead.
pub fn ondemand_job(url: &str) -> (r: Result<JobDownloadVideo, Reply>)
    ensures
        match r {
            Ok(job) => ondemand_request(url@) == Ok::<DownloadView, ReplyView>(job@),
            Err(reply) => ondemand_request(url@) == Err::<DownloadView, ReplyView>(reply@),
        },
{
    match validate_youtube_url(YouTubeURL::Video, url) {
        Ok(Validated::Video(valid)) => Ok(JobDownloadVideo::new(valid)),
        Ok(Validated::ChannelPage(_)) => Err(refuse(UrlError::Unsupported(YouTubeURL::Video))),
        Err(e) => Err(refuse(e)),
    }
}

/// What the caller of a download on demand is told once the job has gone on
/// the queue, or has not.
pub open spec fn ondemand_answer(sent: bool) -> ReplyView {
    if sent {
        ReplyView { status: CREATED, message: "Video submitted to download queue"@ }
    } else {
        ReplyView {
            status: INTERNAL_SERVER_ERROR,
            message: "Video could not be submitted to download queue"@,
        }
    }
}

pub fn ondemand_reply(sent: bool) -> (reply: Reply)
    ensures
        reply@ == ondemand_answer(sent),
{
    if sent {
        Reply { status: CREATED, message: "Video submitted to download queue".to_owned() }
    } else {
        Reply {
            status: INTERNAL_SERVER_ERROR,
            message: "Video could not be submitted to download queue".to_owned(),
        }
    }
}

/// What a caller is told who names no frequency class.
pub open spec fn frequency_refusal() -> ReplyView {
    ReplyView {
        status: BAD_REQUEST,
        message: "Field 'argument' needs to be one of: 'often', 'sometimes', 'rarely'"@,
    }
}

/// The first step of following a channel: the frequency class that was
/// asked for and the URL of the channel's page, or what the caller is told
/// instead. The frequency is looked at first.
pub open spec fn follow_request(frequency: Seq<char>, url: Seq<char>) -> Result<
    (Frequencies, Seq<char>),
    ReplyView,
> {
    if forall|freq: Frequencies| frequency != #[trigger] freq.spec_name() {
        Err(frequency_refusal())
    } else {
        let freq = choose|freq: Frequencies| frequency == #[trigger] freq.spec_name();
        match valid_url(YouTubeURL::Channel, url) {
            Ok(ValidatedView::ChannelPage(page_url)) => Ok((freq, page_url)),
            Ok(ValidatedView::Video(_)) => Err(
                refusal(UrlError::Unsupported(YouTubeURL::Channel)),
            ),
            Err(e) => Err(refusal(e)),
        }
    }
}

pub fn follow_page(frequency: &str, url: &str) -> (r: Result<(Frequencies, String), Reply>)
    ensures
        match r {
            Ok((freq, page_url)) => follow_request(frequency@, url@) == Ok::<
                (Frequencies, Seq<char>),
                ReplyView,
            >((freq, page_url@)),
            Err(reply) => follow_request(frequency@, url@) == Err::<
                (Frequencies, Seq<char>),
                ReplyView,
            >(reply@),
        },
{
    let freq = match Frequencies::parse(frequency) {
        Some(freq) => freq,
        None => {
            return Err(
                Reply {
                    status: BAD_REQUEST,
                    message: "Field 'argument' needs to be one of: 'often', 'sometimes', 'rarely'".to_owned(),
                },
            );
        },
    };
    proof {
        let chosen = choose|other: Frequencies| frequency@ == #[trigger] other.spec_name();
        crate::trigger::lemma_names_differ(freq, chosen);
    }
    match validate_youtube_url(YouTubeURL::Channel, url) {
        Ok(Validated::ChannelPage(page_url)) => Ok((freq, page_url)),
        Ok(Validated::Video(_)) => Err(refuse(UrlError::Unsupported(YouTubeURL::Channel))),
        Err(e) => Err(refuse(e)),
    }
}

/// The source that is entered in the registry for a channel: it goes by the
/// URL of its page and has not been checked yet.
pub open spec fn new_source(
    freq: Frequencies,
    page_url: Seq<char>,
    fetched: PageFetchView,
) -> Result<SourceView, ReplyView> {
    match fetched_feed_url(fetched) {
        Ok(feed_url) => Ok(
            SourceView {
                name: page_url,
                platform: PLATFORM@,
                feed_url,
                check_frequency: freq.spec_name(),
                last_checked: None,
            },
        ),
        Err(e) => Err(refusal(e)),
    }
}

pub fn follow_source(freq: Frequencies, page_url: String, fetched: &PageFetch) -> (r: Result<
    Source,
    Reply,
>)
    ensures
        match r {
            Ok(source) => new_source(freq, page_url@, fetched@) == Ok::<SourceView, ReplyView>(
                source@,
            ),
            Err(reply) => new_source(freq, page_url@, fetched@) == Err::<SourceView, ReplyView>(
                reply@,
            ),
        },
{
    match feed_url_from(fetched) {
        Ok(feed_url) => Ok(
            Source {
                name: page_url,
                platform: PLATFORM.to_owned(),
                feed_url,
                check_frequency: freq.name().to_owned(),
                last_checked: None,
            },
        ),
        Err(e) => Err(refuse(e)),
    }
}

/// What came of entering a source in the registry.
#[derive(Clone, Copy, Debug, PartialEq, Eq, Structural)]
pub enum Insert {
    Done,
    /// The registry holds the source already.
    Duplicate,
    Failed,
}

/// The job for the first visit of a source that was entered in the
/// registry, or what the caller is told where it was not.
pub open spec fn follow_order(source: SourceView, download_as_of: u8, inserted: Insert) -> Result<
    FollowView,
    ReplyView,
> {
    match inserted {
        Insert::Done => Ok(
            FollowView { rss_url: source.feed_url, download_as_of: download_as_of as nat },
        ),
        Insert::Duplicate => Err(
            ReplyView {
                status: BAD_REQUEST,
                message: "Submitted channel is already being followed"@,
            },
        ),
        Insert::Failed => Err(
            ReplyView {
                status: INTERNAL_SERVER_ERROR,
                message: "Inserting new channel to follow into database failed"@,
            },
        ),
    }
}

pub fn follow_job(source: &Source, download_as_of: u8, inserted: Insert) -> (r: Result<
    JobFollowChannel,
    Reply,
>)
    ensures
        match r {
            Ok(job) => follow_order(source@, download_as_of, inserted) == Ok::<
                FollowView,
                ReplyView,
            >(job@),
            Err(reply) => follow_order(source@, download_as_of, inserted) == Err::<
                FollowView,
                ReplyView,
            >(reply@),
        },
{
    match inserted {
        Insert::Done => Ok(JobFollowChannel::new(source.feed_url.clone(), download_as_of)),
        Insert::Duplicate => Err(
            Reply {
                status: BAD_REQUEST,
                message: "Submitted channel is already being followed".to_owned(),
            },
        ),
        Insert::Failed => Err(
            Reply {
                status: INTERNAL_SERVER_ERROR,
                message: "Inserting new channel to follow into database failed".to_owned(),
            },
        ),
    }
}

/// What the caller is told once the job for the first visit of the source
/// `name` has gone on the queue, or has not.
pub open spec fn follow_answer(name: Seq<char>, sent: bool) -> ReplyView {
    if sent {
        ReplyView { status: CREATED, message: "Started following channel "@ + name }
    } else {
        ReplyView {
            status: INTERNAL_SERVER_ERROR,
            message: "Initial download of new channel could not be sent to queue"@,
        }
    }
}

pub fn follow_reply(name: &str, sent: bool) -> (reply: Reply)
    ensures
        reply@ == follow_answer(name@, sent),
{
    if sent {
        let message = join3("Started following channel ", name, "");
        proof {
            reveal_strlit("");
            assert(message@ =~= "Started following channel "@ + name@);
        }
        Reply { status: CREATED, message }
    } else {
        Reply {
            status: INTERNAL_SERVER_ERROR,
            message: "Initial download of new channel could not be sent to queue".to_owned(),
        }
    }
}

} // verus!
