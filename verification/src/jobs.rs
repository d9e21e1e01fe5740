//! The jobs a background worker can be handed.

use crate::text::{append_chars, chars_of, decimal, decimal_of, string_of};
use vstd::prelude::*;

verus! {

/// How often one download is attempted at most.
pub const MAX_RETRIES: u8 = 3;

/// How many jobs the queue holds before its producers have to wait.
pub const QUEUE_CAPACITY: usize = 256;

/// What a download job is, as a mathematical value.
pub struct DownloadView {
    pub url: Seq<char>,
    pub attempt: nat,
}

/// Download the item at `url`. The attempt counter starts at 1 and goes up by
/// one with each resubmission, up to `MAX_RETRIES`.
#[derive(Debug, PartialEq, Eq)]
pub struct JobDownloadVideo {
    url: String,
    attempt: u8,
}

impl View for JobDownloadVideo {
    type V = DownloadView;

    closed spec fn view(&self) -> DownloadView {
        DownloadView { url: self.url@, attempt: self.attempt as nat }
    }
}

/// The retry that follows a failed attempt, if one is left.
pub open spec fn retry_of(job: DownloadView) -> Option<DownloadView> {
    if job.attempt < MAX_RETRIES {
        Some(DownloadView { url: job.url, attempt: job.attempt + 1 })
    } else {
        None
    }
}

/// The job after `retries` resubmissions of a first attempt at `url`, or
/// `None` once the attempts are used up.
pub open spec fn after_retries(url: Seq<char>, retries: nat) -> Option<DownloadView>
    decreases retries,
{
    if retries == 0 {
        Some(DownloadView { url, attempt: 1 })
    } else {
        match after_retries(url, (retries - 1) as nat) {
            Some(job) => retry_of(job),
            None => None,
        }
    }
}

/// A download that has failed `MAX_RETRIES` times.
#[derive(Debug, PartialEq, Eq)]
pub struct ExhaustedRetries {
    url: String,
}

impl View for ExhaustedRetries {
    type V = Seq<char>;

    closed spec fn view(&self) -> Seq<char> {
        self.url@
    }
}

/// What is reported of a download at `url` that has used up its attempts.
pub open spec fn exhausted_message(url: Seq<char>) -> Seq<char> {
    "Unsucessfully tried "@ + decimal(MAX_RETRIES as nat) + " times to download "@ + url
        + ", aborting job"@
}

impl ExhaustedRetries {
    /// The URL whose download was given up.
    pub fn url(&self) -> (r: &str)
        ensures
            r@ == self@,
    {
        self.url.as_str()
    }

    /// What is reported of the download.
    pub fn message(&self) -> (text: String)
        ensures
            text@ == exhausted_message(self@),
    {
        let mut chars = chars_of("Unsucessfully tried ");
        append_chars(&mut chars, &decimal_of(MAX_RETRIES as u64));
        append_chars(&mut chars, &chars_of(" times to download "));
        append_chars(&mut chars, &chars_of(self.url.as_str()));
        append_chars(&mut chars, &chars_of(", aborting job"));
        let text = string_of(&chars, 0, chars.len());
        proof {
            assert(text@ =~= chars@);
        }
        text
    }
}

impl JobDownloadVideo {
    #[verifier::type_invariant]
    spec fn attempt_in_range(&self) -> bool {
        1 <= self.attempt <= MAX_RETRIES
    }

    /// A first attempt at `url`.
    pub fn new(url: String) -> (job: JobDownloadVideo)
        ensures
            job@ == (DownloadView { url: url@, attempt: 1 }),
    {
        Self { url, attempt: 1 }
    }

    pub fn url(&self) -> (r: &str)
        ensures
            r@ == self@.url,
    {
        self.url.as_str()
    }

    pub fn attempt(&self) -> (r: u8)
        ensures
            r == self@.attempt,
            1 <= r <= MAX_RETRIES,
    {
        proof {
            use_type_invariant(self);
        }
        self.attempt
    }

    /// The job to resubmit after this one has failed: the same URL with the
    /// attempt counter one higher, or the report that the attempts are used up.
    pub fn constr_retry(&self) -> (r: Result<JobDownloadVideo, ExhaustedRetries>)
        ensures
            match r {
                Ok(next) => retry_of(self@) == Some(next@),
                Err(e) => retry_of(self@).is_none() && e@ == self@.url,
            },
    {
        if self.attempt < MAX_RETRIES {
            Ok(Self { url: self.url.clone(), attempt: self.attempt + 1 })
        } else {
            Err(ExhaustedRetries { url: self.url.clone() })
        }
    }
}

impl Clone for JobDownloadVideo {
    fn clone(&self) -> (r: Self)
        ensures
            r@ == self@,
    {
        proof {
            use_type_invariant(self);
        }
        Self { url: self.url.clone(), attempt: self.attempt }
    }
}

/// A first attempt that is resubmitted `retries` times is at attempt
/// `retries + 1` with its URL unchanged, as long as `retries` is below
/// `MAX_RETRIES`; with `MAX_RETRIES - 1` resubmissions behind it, one more
/// failure ends the job.
pub proof fn lemma_retry_chain(url: Seq<char>, retries: nat)
    ensures
        retries < MAX_RETRIES ==> after_retries(url, retries) == Some(
            DownloadView { url, attempt: retries + 1 },
        ),
        retries >= MAX_RETRIES ==> after_retries(url, retries).is_none(),
        retries == MAX_RETRIES - 1 ==> retry_of(after_retries(url, retries).unwrap()).is_none(),
        retries < MAX_RETRIES - 1 ==> retry_of(after_retries(url, retries).unwrap()) == Some(
            DownloadView { url, attempt: retries + 2 },
        ),
    decreases retries,
{
    if retries > 0 {
        lemma_retry_chain(url, (retries - 1) as nat);
    }
}


/// What a follow job is, as a mathematical value.
pub struct FollowView {
    pub rss_url: Seq<char>,
    pub download_as_of: nat,
}

/// Start tracking the source whose feed is at `rss_url`, and download its
/// `download_as_of` most recent items.
#[derive(Debug, PartialEq, Eq)]
pub struct JobFollowChannel {
    rss_url: String,
    download_as_of: u8,
}

impl View for JobFollowChannel {
    type V = FollowView;

    closed spec fn view(&self) -> FollowView {
        FollowView { rss_url: self.rss_url@, download_as_of: self.download_as_of as nat }
    }
}

impl JobFollowChannel {
    pub fn new(rss_url: String, download_as_of: u8) -> (job: JobFollowChannel)
        ensures
            job@ == (FollowView { rss_url: rss_url@, download_as_of: download_as_of as nat }),
    {
        Self { rss_url, download_as_of }
    }

    pub fn rss_url(&self) -> (r: &str)
        ensures
            r@ == self@.rss_url,
    {
        self.rss_url.as_str()
    }

    pub fn download_as_of(&self) -> (r: u8)
        ensures
            r == self@.download_as_of,
    {
        self.download_as_of
    }
}

impl Clone for JobFollowChannel {
    fn clone(&self) -> (r: Self)
        ensures
            r@ == self@,
    {
        Self { rss_url: self.rss_url.clone(), download_as_of: self.download_as_of }
    }
}

/// Poll the tracked source whose feed is at `rss_url` for new items.
#[derive(Debug, PartialEq, Eq)]
pub struct JobCheckChannel {
    rss_url: String,
}

impl View for JobCheckChannel {
    type V = Seq<char>;

    closed spec fn view(&self) -> Seq<char> {
        self.rss_url@
    }
}

impl JobCheckChannel {
    pub fn new(rss_url: String) -> (job: JobCheckChannel)
        ensures
            job@ == rss_url@,
    {
        Self { rss_url }
    }

    pub fn rss_url(&self) -> (r: &str)
        ensures
            r@ == self@,
    {
        self.rss_url.as_str()
    }
}

impl Clone for JobCheckChannel {
    fn clone(&self) -> (r: Self)
        ensures
            r@ == self@,
    {
        Self { rss_url: self.rss_url.clone() }
    }
}

/// What a job is, as a mathematical value.
pub enum JobView {
    Download(DownloadView),
    Follow(FollowView),
    Check(Seq<char>),
}

/// One unit of background work.
#[derive(Debug, PartialEq, Eq)]
pub enum Job {
    Download(JobDownloadVideo),
    Follow(JobFollowChannel),
    Check(JobCheckChannel),
}

impl View for Job {
    type V = JobView;

    open spec fn view(&self) -> JobView {
        match self {
            Job::Download(job) => JobView::Download(job@),
            Job::Follow(job) => JobView::Follow(job@),
            Job::Check(job) => JobView::Check(job@),
        }
    }
}

impl Clone for Job {
    fn clone(&self) -> (r: Self)
        ensures
            r@ == self@,
    {
        match self {
            Job::Download(job) => Job::Download(job.clone()),
            Job::Follow(job) => Job::Follow(job.clone()),
            Job::Check(job) => Job::Check(job.clone()),
        }
    }
}

} // verus!
