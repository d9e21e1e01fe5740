//! The worker's decisions: what follows from each thing that happens while a
//! job is carried out. The caller does the outside work (the clock, the
//! registry, the network, the acquisition tool, the queue) and reports back.

use crate::jobs::{
    retry_of, DownloadView, ExhaustedRetries, JobCheckChannel, JobDownloadVideo, JobFollowChannel,
};
use crate::rss::{
    feed_outcome, first_n, published_since, since, top_n, urls_of, FeedError,
};
use crate::text::{
    after_last, after_last_of, append_chars, chars_of, holds, lemma_first_kept, lemma_none_kept,
    occurs_in, second_field, second_field_of, string_of, texts, trim_to, trimmed_to,
};
use crate::time::{
    datetime_text, formatted_datetime, parse_formatted, parse_rfc3339, rfc3339_datetime,
    write_datetime, Timestamp,
};
use vstd::prelude::*;

verus! {

/// The format in which the acquisition tool prints the time of publication:
/// seconds since the Unix epoch.
pub const TOOL_TIME_FORMAT: &'static str = "%s";

/// The format of the time of publication in the name of a stored file.
pub const NAME_TIME_FORMAT: &'static str = "%Y-%m-%d-%H-%M-%S";

/// The character that frames what the tool prints: everything before the
/// first and after the last one is dropped.
pub const FRAME: char = '_';

/// The character on both sides of the time of publication in what the tool
/// prints.
pub const FIELD_MARK: char = '@';

/// The name of the acquisition tool.
pub const TOOL: &'static str = "yt-dlp";

/// What the tool is to print: the time of publication between two
/// `FIELD_MARK`s, framed by `FRAME`s.
pub const TOOL_PRINT: &'static str = "\"___@%(timestamp)s@___\"";

/// The arguments with which the tool downloads the item at `url` to
/// `output`: quietly, printing the time of publication, with subtitles,
/// thumbnail and metadata embedded.
pub open spec fn tool_arguments_for(output: Seq<char>, url: Seq<char>) -> Seq<Seq<char>> {
    seq![
        "--quiet"@,
        "--no-simulate"@,
        "--no-warnings"@,
        "--no-progress"@,
        "--print"@,
        TOOL_PRINT@,
        "--embed-subs"@,
        "--embed-thumbnail"@,
        "--embed-metadata"@,
        "--output"@,
        output,
        url,
    ]
}

/// The arguments with which the tool downloads the item at `url` to
/// `output`.
pub fn tool_arguments(output: &str, url: &str) -> (arguments: Vec<String>)
    ensures
        texts(arguments@) == tool_arguments_for(output@, url@),
{
    let mut arguments: Vec<String> = Vec::new();
    arguments.push("--quiet".to_owned());
    arguments.push("--no-simulate".to_owned());
    arguments.push("--no-warnings".to_owned());
    arguments.push("--no-progress".to_owned());
    arguments.push("--print".to_owned());
    arguments.push(TOOL_PRINT.to_owned());
    arguments.push("--embed-subs".to_owned());
    arguments.push("--embed-thumbnail".to_owned());
    arguments.push("--embed-metadata".to_owned());
    arguments.push("--output".to_owned());
    arguments.push(output.to_owned());
    arguments.push(url.to_owned());
    proof {
        assert(texts(arguments@) =~= tool_arguments_for(output@, url@));
    }
    arguments
}

/// What the acquisition tool left behind.
#[derive(Debug, PartialEq, Eq)]
pub struct ToolReport {
    /// What the tool printed, where that is text.
    pub output: Option<String>,
    /// The paths of the files in the working area.
    pub files: Vec<String>,
}

pub struct ToolReportView {
    pub output: Option<Seq<char>>,
    pub files: Seq<Seq<char>>,
}

impl View for ToolReport {
    type V = ToolReportView;

    open spec fn view(&self) -> ToolReportView {
        ToolReportView {
            output: match self.output {
                Some(text) => Some(text@),
                None => None,
            },
            files: texts(self.files@),
        }
    }
}

/// Why an attempt at a download failed.
#[derive(Clone, Copy, Debug, PartialEq, Eq, Structural)]
pub enum DownloadFailure {
    /// The working area could not be made.
    WorkArea,
    /// The tool could not be run, or its working area not read.
    Tool,
    /// The tool left no file under the expected name.
    MissingOutput,
    /// What the tool printed does not give the time of publication, or the
    /// file it left has no extension.
    Metadata,
    /// The file could not be moved to its final place.
    Move,
}

/// What happened while a download was carried out.
#[derive(Debug, PartialEq, Eq)]
pub enum DownloadEvent {
    WorkAreaFailed,
    ToolFailed,
    ToolRan(ToolReport),
    MoveFailed,
    Moved,
}

pub enum DownloadEventView {
    WorkAreaFailed,
    ToolFailed,
    ToolRan(ToolReportView),
    MoveFailed,
    Moved,
}

impl View for DownloadEvent {
    type V = DownloadEventView;

    open spec fn view(&self) -> DownloadEventView {
        match self {
            DownloadEvent::WorkAreaFailed => DownloadEventView::WorkAreaFailed,
            DownloadEvent::ToolFailed => DownloadEventView::ToolFailed,
            DownloadEvent::ToolRan(report) => DownloadEventView::ToolRan(report@),
            DownloadEvent::MoveFailed => DownloadEventView::MoveFailed,
            DownloadEvent::Moved => DownloadEventView::Moved,
        }
    }
}

/// What is to be done next for a download.
#[derive(Debug, PartialEq, Eq)]
pub enum DownloadAction {
    /// Move the file at `from` to the final place under the name `name`.
    Store { from: String, name: String },
    /// Put `job` on the queue: the attempt failed and another one is left.
    Resubmit { job: JobDownloadVideo, after: DownloadFailure },
    /// Drop the job: the attempt failed and it was the last one.
    GiveUp { exhausted: ExhaustedRetries, after: DownloadFailure },
    /// The download is complete.
    Done,
}

pub enum DownloadActionView {
    Store { from: Seq<char>, name: Seq<char> },
    Resubmit { job: DownloadView, after: DownloadFailure },
    GiveUp { url: Seq<char>, after: DownloadFailure },
    Done,
}

impl View for DownloadAction {
    type V = DownloadActionView;

    open spec fn view(&self) -> DownloadActionView {
        match self {
            DownloadAction::Store { from, name } => DownloadActionView::Store {
                from: from@,
                name: name@,
            },
            DownloadAction::Resubmit { job, after } => DownloadActionView::Resubmit {
                job: job@,
                after: *after,
            },
            DownloadAction::GiveUp { exhausted, after } => DownloadActionView::GiveUp {
                url: exhausted@,
                after: *after,
            },
            DownloadAction::Done => DownloadActionView::Done,
        }
    }
}

/// What the path of the downloaded file holds: the name `tag` of the working
/// area, then the file's name up to its extension.
pub open spec fn output_marker(tag: Seq<char>) -> Seq<char> {
    tag + "/download."@
}

/// The time of publication in what the tool printed: the second of the
/// fields that `FIELD_MARK` divides the framed part into, read as seconds
/// since the Unix epoch.
pub open spec fn upload_time(output: Seq<char>) -> Option<Timestamp> {
    match second_field(trimmed_to(output, FRAME), FIELD_MARK) {
        Some(field) => formatted_datetime(field, TOOL_TIME_FORMAT@),
        None => None,
    }
}

/// The name under which a download is stored: the time of publication, the
/// name of the working area, which tells when the download began, and the
/// extension of the file that the tool left.
pub open spec fn stored_name(tag: Seq<char>, output: Seq<char>, file: Seq<char>) -> Option<
    Seq<char>,
> {
    match upload_time(output) {
        None => None,
        Some(at) => match datetime_text(at, NAME_TIME_FORMAT@) {
            None => None,
            Some(stamp) => match after_last(file, '.') {
                None => None,
                Some(extension) => Some(stamp + "_"@ + tag + "."@ + extension),
            },
        },
    }
}

/// The files among `files` whose path holds the marker of the working area
/// `tag`.
pub open spec fn downloaded(files: Seq<Seq<char>>, tag: Seq<char>) -> Seq<Seq<char>> {
    files.filter(|file: Seq<char>| occurs_in(file, output_marker(tag)))
}

/// Which file is to be stored under which name after the tool has run in the
/// working area `tag`, or why the attempt has failed.
pub open spec fn storage_of(tag: Seq<char>, report: ToolReportView) -> Result<
    (Seq<char>, Seq<char>),
    DownloadFailure,
> {
    let found = downloaded(report.files, tag);
    if found.len() == 0 {
        Err(DownloadFailure::MissingOutput)
    } else {
        match report.output {
            None => Err(DownloadFailure::Metadata),
            Some(output) => match stored_name(tag, output, found[0]) {
                Some(name) => Ok((found[0], name)),
                None => Err(DownloadFailure::Metadata),
            },
        }
    }
}

/// What follows a failed attempt: the job goes back on the queue with its
/// attempt counted up, unless this was the last attempt.
pub open spec fn after_failure(job: DownloadView, failure: DownloadFailure) -> DownloadActionView {
    match retry_of(job) {
        Some(next) => DownloadActionView::Resubmit { job: next, after: failure },
        None => DownloadActionView::GiveUp { url: job.url, after: failure },
    }
}

/// What is to be done for the download `job`, carried out in the working
/// area `tag`, after `event`.
pub open spec fn download_verdict(
    job: DownloadView,
    tag: Seq<char>,
    event: DownloadEventView,
) -> DownloadActionView {
    match event {
        DownloadEventView::WorkAreaFailed => after_failure(job, DownloadFailure::WorkArea),
        DownloadEventView::ToolFailed => after_failure(job, DownloadFailure::Tool),
        DownloadEventView::ToolRan(report) => match storage_of(tag, report) {
            Ok((from, name)) => DownloadActionView::Store { from, name },
            Err(failure) => after_failure(job, failure),
        },
        DownloadEventView::MoveFailed => after_failure(job, DownloadFailure::Move),
        DownloadEventView::Moved => DownloadActionView::Done,
    }
}

/// A download goes back on the queue only while attempts are left, with its
/// attempt counted up by one and its URL unchanged; at the last attempt it is
/// dropped.
pub proof fn lemma_download_verdict(job: DownloadView, tag: Seq<char>, event: DownloadEventView)
    ensures
        match download_verdict(job, tag, event) {
            DownloadActionView::Resubmit { job: next, .. } => {
                &&& job.attempt < crate::jobs::MAX_RETRIES
                &&& next == (DownloadView { url: job.url, attempt: job.attempt + 1 })
            },
            DownloadActionView::GiveUp { url, .. } => {
                &&& job.attempt >= crate::jobs::MAX_RETRIES
                &&& url == job.url
            },
            DownloadActionView::Store { .. } => event is ToolRan,
            DownloadActionView::Done => event is Moved,
        },
{
}

/// The job to resubmit after a failed attempt, or the report that the
/// attempts are used up.
pub fn settle_failure(job: &JobDownloadVideo, failure: DownloadFailure) -> (action: DownloadAction)
    ensures
        action@ == after_failure(job@, failure),
{
    match job.constr_retry() {
        Ok(next) => DownloadAction::Resubmit { job: next, after: failure },
        Err(exhausted) => DownloadAction::GiveUp { exhausted, after: failure },
    }
}

/// The position in `files` of the first file whose path holds the marker of
/// the working area `tag`.
pub fn find_download(files: &Vec<String>, tag: &str) -> (r: Option<usize>)
    ensures
        match r {
            Some(i) => i < files@.len() && downloaded(texts(files@), tag@).len() > 0
                && downloaded(texts(files@), tag@)[0] == files@[i as int]@,
            None => downloaded(texts(files@), tag@).len() == 0,
        },
{
    let mut marker = chars_of(tag);
    let rest = chars_of("/download.");
    append_chars(&mut marker, &rest);
    let ghost paths = texts(files@);
    let ghost keep = |file: Seq<char>| occurs_in(file, output_marker(tag@));
    let mut i: usize = 0;
    while i < files.len()
        invariant
            i <= files.len(),
            marker@ == output_marker(tag@),
            paths == texts(files@),
            keep == |file: Seq<char>| occurs_in(file, output_marker(tag@)),
            forall|j: int| 0 <= j < i ==> !keep(#[trigger] paths[j]),
        decreases files.len() - i,
    {
        let path = chars_of(files[i].as_str());
        if holds(&path, &marker) {
            proof {
                assert(keep(paths[i as int]));
                lemma_first_kept(paths, keep, i as int);
            }
            return Some(i);
        }
        i += 1;
    }
    proof {
        lemma_none_kept(paths, keep);
    }
    None
}

/// The name under which the file at `file` is stored, from what the tool
/// printed.
pub fn name_for(tag: &str, output: &str, file: &str) -> (r: Option<String>)
    ensures
        match r {
            Some(name) => stored_name(tag@, output@, file@) == Some(name@),
            None => stored_name(tag@, output@, file@).is_none(),
        },
{
    let printed = chars_of(output);
    let framed = trim_to(&printed, FRAME);
    let field = match second_field_of(&framed, FIELD_MARK) {
        Some(field) => field,
        None => { return None; },
    };
    let field_text = string_of(&field, 0, field.len());
    proof {
        assert(field_text@ =~= field@);
    }
    let at = match parse_formatted(field_text.as_str(), TOOL_TIME_FORMAT) {
        Ok(at) => at,
        Err(_) => { return None; },
    };
    let stamp = match write_datetime(at, NAME_TIME_FORMAT) {
        Some(stamp) => stamp,
        None => { return None; },
    };
    let path = chars_of(file);
    let extension = match after_last_of(&path, '.') {
        Some(extension) => extension,
        None => { return None; },
    };
    let mut name = chars_of(stamp.as_str());
    append_chars(&mut name, &chars_of("_"));
    append_chars(&mut name, &chars_of(tag));
    append_chars(&mut name, &chars_of("."));
    append_chars(&mut name, &extension);
    let text = string_of(&name, 0, name.len());
    proof {
        assert(text@ =~= name@);
    }
    Some(text)
}

/// What is to be done for the download `job`, carried out in the working
/// area named `tag`, after `event`. Any failure sends the job back to the
/// queue with its attempt counted up, until the attempts are used up.
pub fn download_step(job: &JobDownloadVideo, tag: &str, event: DownloadEvent) -> (action:
    DownloadAction)
    ensures
        action@ == download_verdict(job@, tag@, event@),
{
    match event {
        DownloadEvent::WorkAreaFailed => settle_failure(job, DownloadFailure::WorkArea),
        DownloadEvent::ToolFailed => settle_failure(job, DownloadFailure::Tool),
        DownloadEvent::ToolRan(report) => {
            let at = match find_download(&report.files, tag) {
                Some(at) => at,
                None => { return settle_failure(job, DownloadFailure::MissingOutput); },
            };
            let output = match &report.output {
                Some(output) => output,
                None => { return settle_failure(job, DownloadFailure::Metadata); },
            };
            match name_for(tag, output.as_str(), report.files[at].as_str()) {
                Some(name) => DownloadAction::Store { from: report.files[at].clone(), name },
                None => settle_failure(job, DownloadFailure::Metadata),
            }
        },
        DownloadEvent::MoveFailed => settle_failure(job, DownloadFailure::Move),
        DownloadEvent::Moved => DownloadAction::Done,
    }
}


/// Which of the two jobs on a source a run carries out.
#[derive(Clone, Copy, Debug, PartialEq, Eq, Structural)]
pub enum RunKind {
    /// The first visit of a new source, with the number of recent items to
    /// download.
    Follow { download_as_of: u8 },
    /// A poll of a tracked source.
    Check,
}

/// How far a run on a source has come.
#[derive(Clone, Copy, Debug, PartialEq, Eq, Structural)]
pub enum RunPhase {
    /// Nothing has happened yet.
    Created,
    /// The registry was asked for the time of the last check.
    ReadingLastChecked,
    /// The feed is being fetched.
    Fetching,
    /// A download job was handed out for the queue.
    Sending,
    /// The new time of the last check is being written.
    Storing,
    /// The run is over.
    Closed,
}

/// Why a run on a source ended without completing.
#[derive(Clone, Copy, Debug, PartialEq, Eq, Structural)]
pub enum RunFailure {
    /// The registry could not be read or written.
    Registry,
    /// The source has no time of a last check: its first visit is not
    /// complete.
    NotInitialized,
    /// The stored time of the last check is no RFC 3339 date-time.
    LastChecked,
    /// The feed could not be fetched.
    Fetch,
    /// The feed could not be read.
    Feed,
    /// The queue took no more jobs.
    Queue,
    /// Something was reported that the run was not waiting for.
    OutOfTurn,
}

/// What the registry holds as the time of a source's last check.
#[derive(Debug, PartialEq, Eq)]
pub enum Lookup {
    /// The registry could not be read.
    Failed,
    /// The source has none.
    Absent,
    Found(String),
}

pub enum LookupView {
    Failed,
    Absent,
    Found(Seq<char>),
}

impl View for Lookup {
    type V = LookupView;

    open spec fn view(&self) -> LookupView {
        match self {
            Lookup::Failed => LookupView::Failed,
            Lookup::Absent => LookupView::Absent,
            Lookup::Found(text) => LookupView::Found(text@),
        }
    }
}

/// What happened while a job on a source was carried out.
#[derive(Debug, PartialEq, Eq)]
pub enum RunEvent {
    /// The job was taken from the queue at the moment `now`, written as an
    /// RFC 3339 date-time.
    Begin { now: String },
    /// The registry answered.
    LastChecked(Lookup),
    /// The feed was fetched, or could not be.
    Feed(Option<String>),
    /// The job handed out last went on the queue, or the queue refused it.
    Sent(bool),
    /// The time of the last check was written, or could not be.
    Stored(bool),
}

pub enum RunEventView {
    Begin { now: Seq<char> },
    LastChecked(LookupView),
    Feed(Option<Seq<char>>),
    Sent(bool),
    Stored(bool),
}

impl View for RunEvent {
    type V = RunEventView;

    open spec fn view(&self) -> RunEventView {
        match self {
            RunEvent::Begin { now } => RunEventView::Begin { now: now@ },
            RunEvent::LastChecked(lookup) => RunEventView::LastChecked(lookup@),
            RunEvent::Feed(feed) => RunEventView::Feed(
                match feed {
                    Some(text) => Some(text@),
                    None => None,
                },
            ),
            RunEvent::Sent(done) => RunEventView::Sent(*done),
            RunEvent::Stored(done) => RunEventView::Stored(*done),
        }
    }
}

/// What is to be done next for a job on a source.
#[derive(Debug, PartialEq, Eq)]
pub enum RunAction {
    /// Ask the registry for the time of the source's last check.
    ReadLastChecked { feed_url: String },
    /// Fetch the feed.
    FetchFeed { feed_url: String },
    /// Put a download job on the queue.
    Send(JobDownloadVideo),
    /// Write `at` as the time of the source's last check.
    StoreLastChecked { feed_url: String, at: String },
    /// The run is over: complete, or failed for the reason given.
    Finish(Option<RunFailure>),
}

pub enum RunActionView {
    ReadLastChecked { feed_url: Seq<char> },
    FetchFeed { feed_url: Seq<char> },
    Send(DownloadView),
    StoreLastChecked { feed_url: Seq<char>, at: Seq<char> },
    Finish(Option<RunFailure>),
}

impl View for RunAction {
    type V = RunActionView;

    open spec fn view(&self) -> RunActionView {
        match self {
            RunAction::ReadLastChecked { feed_url } => RunActionView::ReadLastChecked {
                feed_url: feed_url@,
            },
            RunAction::FetchFeed { feed_url } => RunActionView::FetchFeed { feed_url: feed_url@ },
            RunAction::Send(job) => RunActionView::Send(job@),
            RunAction::StoreLastChecked { feed_url, at } => RunActionView::StoreLastChecked {
                feed_url: feed_url@,
                at: at@,
            },
            RunAction::Finish(outcome) => RunActionView::Finish(*outcome),
        }
    }
}

/// A job on a source that is being carried out.
#[derive(Debug, PartialEq, Eq)]
pub struct ChannelRun {
    kind: RunKind,
    feed_url: String,
    started: String,
    as_of: Option<Timestamp>,
    remaining: Vec<String>,
    phase: RunPhase,
}

pub struct RunView {
    pub kind: RunKind,
    pub feed_url: Seq<char>,
    /// The moment at which the job was taken from the queue.
    pub started: Seq<char>,
    /// The time of the source's last check, once it is known.
    pub as_of: Option<Timestamp>,
    /// The URLs for which a download job is still to be handed out.
    pub remaining: Seq<Seq<char>>,
    pub phase: RunPhase,
}

impl View for ChannelRun {
    type V = RunView;

    closed spec fn view(&self) -> RunView {
        RunView {
            kind: self.kind,
            feed_url: self.feed_url@,
            started: self.started@,
            as_of: self.as_of,
            remaining: texts(self.remaining@),
            phase: self.phase,
        }
    }
}

/// A run that has not begun.
pub open spec fn fresh_run(kind: RunKind, feed_url: Seq<char>) -> RunView {
    RunView {
        kind,
        feed_url,
        started: Seq::empty(),
        as_of: None,
        remaining: Seq::empty(),
        phase: RunPhase::Created,
    }
}

/// The run ends with `failure`: nothing more is handed out.
pub open spec fn fail_run(run: RunView, failure: RunFailure) -> (RunView, RunActionView) {
    (
        RunView { remaining: Seq::empty(), phase: RunPhase::Closed, ..run },
        RunActionView::Finish(Some(failure)),
    )
}

/// With download jobs left to hand out for `urls`, the first of them goes to
/// the queue as a first attempt. With none left, the moment at which the run
/// began becomes the time of the source's last check.
pub open spec fn send_or_store(run: RunView, urls: Seq<Seq<char>>) -> (RunView, RunActionView) {
    if urls.len() == 0 {
        (
            RunView { remaining: Seq::empty(), phase: RunPhase::Storing, ..run },
            RunActionView::StoreLastChecked { feed_url: run.feed_url, at: run.started },
        )
    } else {
        (
            RunView { remaining: urls.skip(1), phase: RunPhase::Sending, ..run },
            RunActionView::Send(DownloadView { url: urls[0], attempt: 1 }),
        )
    }
}

/// The URLs that a run downloads from a feed with the items `entries`,
/// newest first: the most recent ones at a first visit, as many as were
/// asked for, and at a poll those published at or after the last check.
/// `None` at a poll that does not know the time of the last check.
pub open spec fn wanted_urls(run: RunView, entries: Seq<(Timestamp, Seq<char>)>) -> Option<
    Seq<Seq<char>>,
> {
    match run.kind {
        RunKind::Follow { download_as_of } => Some(urls_of(first_n(entries, download_as_of as nat))),
        RunKind::Check => match run.as_of {
            Some(as_of) => Some(urls_of(published_since(entries, as_of))),
            None => None,
        },
    }
}

/// What follows once the feed has been held against the run: `diffed` holds
/// the URLs to download, or `None` where the feed could not be read.
pub open spec fn diff_step(run: RunView, diffed: Option<Seq<Seq<char>>>) -> (
    RunView,
    RunActionView,
) {
    if run.phase != RunPhase::Fetching {
        fail_run(run, RunFailure::OutOfTurn)
    } else {
        match diffed {
            Some(urls) => send_or_store(run, urls),
            None => fail_run(run, RunFailure::Feed),
        }
    }
}

/// The state of a run after `event`, and what is to be done next.
pub open spec fn run_step(run: RunView, event: RunEventView) -> (RunView, RunActionView) {
    match (run.phase, event) {
        (RunPhase::Created, RunEventView::Begin { now }) => match run.kind {
            RunKind::Follow { .. } => (
                RunView { started: now, phase: RunPhase::Fetching, ..run },
                RunActionView::FetchFeed { feed_url: run.feed_url },
            ),
            RunKind::Check => (
                RunView { started: now, phase: RunPhase::ReadingLastChecked, ..run },
                RunActionView::ReadLastChecked { feed_url: run.feed_url },
            ),
        },
        (RunPhase::ReadingLastChecked, RunEventView::LastChecked(lookup)) => match lookup {
            LookupView::Failed => fail_run(run, RunFailure::Registry),
            LookupView::Absent => fail_run(run, RunFailure::NotInitialized),
            LookupView::Found(text) => match rfc3339_datetime(text) {
                None => fail_run(run, RunFailure::LastChecked),
                Some(at) => (
                    RunView { as_of: Some(at), phase: RunPhase::Fetching, ..run },
                    RunActionView::FetchFeed { feed_url: run.feed_url },
                ),
            },
        },
        (RunPhase::Fetching, RunEventView::Feed(None)) => fail_run(run, RunFailure::Fetch),
        (RunPhase::Fetching, RunEventView::Feed(Some(text))) => match feed_outcome(text) {
            Err(_) => fail_run(run, RunFailure::Feed),
            Ok(entries) => match wanted_urls(run, entries) {
                Some(urls) => send_or_store(run, urls),
                None => fail_run(run, RunFailure::NotInitialized),
            },
        },
        (RunPhase::Sending, RunEventView::Sent(true)) => send_or_store(run, run.remaining),
        (RunPhase::Sending, RunEventView::Sent(false)) => fail_run(run, RunFailure::Queue),
        (RunPhase::Storing, RunEventView::Stored(true)) => (
            RunView { remaining: Seq::empty(), phase: RunPhase::Closed, ..run },
            RunActionView::Finish(None),
        ),
        (RunPhase::Storing, RunEventView::Stored(false)) => fail_run(run, RunFailure::Registry),
        _ => fail_run(run, RunFailure::OutOfTurn),
    }
}

/// Whatever happens, a run hands out first attempts only; it writes no time
/// but the moment at which it began, for no source but its own; it stays
/// with its source; it is over exactly when it says so; and once over, it
/// stays over.
pub proof fn lemma_run_step(run: RunView, event: RunEventView)
    ensures
        run_step(run, event).1 matches RunActionView::Send(job) ==> job.attempt == 1,
        run_step(run, event).1 matches RunActionView::StoreLastChecked { feed_url, at }
            ==> feed_url == run.feed_url && at == run.started,
        run_step(run, event).0.kind == run.kind,
        run_step(run, event).0.feed_url == run.feed_url,
        run_step(run, event).1 is Finish <==> run_step(run, event).0.phase == RunPhase::Closed,
        run.phase == RunPhase::Closed ==> run_step(run, event) == fail_run(
            run,
            RunFailure::OutOfTurn,
        ),
{
}

/// A poll of a source that has no time of a last check ends at once: the
/// feed is not fetched, nothing is downloaded and no time is written.
pub proof fn lemma_unchecked_source_is_not_polled(run: RunView)
    requires
        run.kind == RunKind::Check,
        run.phase == RunPhase::ReadingLastChecked,
    ensures
        run_step(run, RunEventView::LastChecked(LookupView::Absent)) == fail_run(
            run,
            RunFailure::NotInitialized,
        ),
{
}

impl ChannelRun {
    /// The run for a first visit of a new source.
    pub fn follow(job: &JobFollowChannel) -> (run: ChannelRun)
        ensures
            run@ == fresh_run(
                RunKind::Follow { download_as_of: job@.download_as_of as u8 },
                job@.rss_url,
            ),
    {
        let run = ChannelRun {
            kind: RunKind::Follow { download_as_of: job.download_as_of() },
            feed_url: job.rss_url().to_owned(),
            started: String::new(),
            as_of: None,
            remaining: Vec::new(),
            phase: RunPhase::Created,
        };
        proof {
            assert(texts(run.remaining@) =~= Seq::empty());
        }
        run
    }

    /// The run for a poll of a tracked source.
    pub fn check(job: &JobCheckChannel) -> (run: ChannelRun)
        ensures
            run@ == fresh_run(RunKind::Check, job@),
    {
        let run = ChannelRun {
            kind: RunKind::Check,
            feed_url: job.rss_url().to_owned(),
            started: String::new(),
            as_of: None,
            remaining: Vec::new(),
            phase: RunPhase::Created,
        };
        proof {
            assert(texts(run.remaining@) =~= Seq::empty());
        }
        run
    }

    pub fn phase(&self) -> (phase: RunPhase)
        ensures
            phase == self@.phase,
    {
        self.phase
    }

    fn fail(&mut self, failure: RunFailure) -> (action: RunAction)
        ensures
            (final(self)@, action@) == fail_run(old(self)@, failure),
    {
        self.remaining = Vec::new();
        self.phase = RunPhase::Closed;
        proof {
            assert(texts(self.remaining@) =~= Seq::empty());
        }
        RunAction::Finish(Some(failure))
    }

    fn hand_out(&mut self, urls: Vec<String>) -> (action: RunAction)
        ensures
            (final(self)@, action@) == send_or_store(old(self)@, texts(urls@)),
    {
        let mut urls = urls;
        let ghost given = texts(urls@);
        if urls.len() == 0 {
            self.remaining = urls;
            self.phase = RunPhase::Storing;
            proof {
                assert(texts(self.remaining@) =~= Seq::empty());
            }
            RunAction::StoreLastChecked {
                feed_url: self.feed_url.clone(),
                at: self.started.clone(),
            }
        } else {
            let first = urls.remove(0);
            proof {
                assert(texts(urls@) =~= given.skip(1));
                assert(first@ == given[0]);
            }
            self.remaining = urls;
            self.phase = RunPhase::Sending;
            RunAction::Send(JobDownloadVideo::new(first))
        }
    }

    /// What follows once the feed has been held against the run: `diffed`
    /// holds the URLs to download, or the reason why the feed could not be
    /// read.
    pub fn feed_diffed(&mut self, diffed: Result<Vec<String>, FeedError>) -> (action: RunAction)
        ensures
            (final(self)@, action@) == diff_step(
                old(self)@,
                match diffed {
                    Ok(urls) => Some(texts(urls@)),
                    Err(_) => None,
                },
            ),
    {
        match self.phase {
            RunPhase::Fetching => match diffed {
                Ok(urls) => self.hand_out(urls),
                Err(_) => self.fail(RunFailure::Feed),
            },
            _ => self.fail(RunFailure::OutOfTurn),
        }
    }

    /// Takes in what has happened and says what is to be done next.
    pub fn step(&mut self, event: RunEvent) -> (action: RunAction)
        ensures
            (final(self)@, action@) == run_step(old(self)@, event@),
    {
        match event {
            RunEvent::Begin { now } => match self.phase {
                RunPhase::Created => {
                    self.started = now;
                    match self.kind {
                        RunKind::Follow { download_as_of } => {
                            self.phase = RunPhase::Fetching;
                            RunAction::FetchFeed { feed_url: self.feed_url.clone() }
                        },
                        RunKind::Check => {
                            self.phase = RunPhase::ReadingLastChecked;
                            RunAction::ReadLastChecked { feed_url: self.feed_url.clone() }
                        },
                    }
                },
                _ => self.fail(RunFailure::OutOfTurn),
            },
            RunEvent::LastChecked(lookup) => match self.phase {
                RunPhase::ReadingLastChecked => match lookup {
                    Lookup::Failed => self.fail(RunFailure::Registry),
                    Lookup::Absent => self.fail(RunFailure::NotInitialized),
                    Lookup::Found(text) => match parse_rfc3339(text.as_str()) {
                        Ok(at) => {
                            self.as_of = Some(at);
                            self.phase = RunPhase::Fetching;
                            RunAction::FetchFeed { feed_url: self.feed_url.clone() }
                        },
                        Err(_) => self.fail(RunFailure::LastChecked),
                    },
                },
                _ => self.fail(RunFailure::OutOfTurn),
            },
            RunEvent::Feed(feed) => match self.phase {
                RunPhase::Fetching => match feed {
                    None => self.fail(RunFailure::Fetch),
                    Some(text) => match self.kind {
                        RunKind::Follow { download_as_of } => {
                            let diffed = top_n(text.as_str(), download_as_of);
                            self.feed_diffed(diffed)
                        },
                        RunKind::Check => match self.as_of {
                            Some(as_of) => {
                                let diffed = since(text.as_str(), as_of);
                                self.feed_diffed(diffed)
                            },
                            None => match top_n(text.as_str(), 0) {
                                Ok(_) => self.fail(RunFailure::NotInitialized),
                                Err(_) => self.fail(RunFailure::Feed),
                            },
                        },
                    },
                },
                _ => self.fail(RunFailure::OutOfTurn),
            },
            RunEvent::Sent(done) => match self.phase {
                RunPhase::Sending => {
                    if done {
                        let mut urls: Vec<String> = Vec::new();
                        std::mem::swap(&mut urls, &mut self.remaining);
                        self.hand_out(urls)
                    } else {
                        self.fail(RunFailure::Queue)
                    }
                },
                _ => self.fail(RunFailure::OutOfTurn),
            },
            RunEvent::Stored(done) => match self.phase {
                RunPhase::Storing => {
                    if done {
                        self.remaining = Vec::new();
                        self.phase = RunPhase::Closed;
                        proof {
                            assert(texts(self.remaining@) =~= Seq::empty());
                        }
                        RunAction::Finish(None)
                    } else {
                        self.fail(RunFailure::Registry)
                    }
                },
                _ => self.fail(RunFailure::OutOfTurn),
            },
        }
    }
}

} // verus!
