use autotube::jobs::{
    Job, JobCheckChannel, JobDownloadVideo, JobFollowChannel, MAX_RETRIES, QUEUE_CAPACITY,
};

#[test]
fn download_job_starts_at_attempt_one() {
    let job = JobDownloadVideo::new(String::from("https://www.youtube.com/watch?v=0123456789a"));
    assert_eq!(job.url(), "https://www.youtube.com/watch?v=0123456789a");
    assert_eq!(job.attempt(), 1);
}

#[test]
fn max_retries_is_three() {
    assert_eq!(MAX_RETRIES, 3);
    assert_eq!(QUEUE_CAPACITY, 256);
}

#[test]
fn retry_counts_up_by_one_and_keeps_the_url() {
    let first = JobDownloadVideo::new(String::from("u"));
    let second = first.constr_retry().unwrap();
    assert_eq!(second.url(), "u");
    assert_eq!(second.attempt(), 2);
    // The job that failed is left as it was.
    assert_eq!(first.attempt(), 1);
    let third = second.constr_retry().unwrap();
    assert_eq!(third.url(), "u");
    assert_eq!(third.attempt(), 3);
}

#[test]
fn job_retried_twice_is_dropped_at_the_next_failure() {
    let mut job = JobDownloadVideo::new(String::from("https://www.youtube.com/watch?v=abcdefghijk"));
    for _ in 0..(MAX_RETRIES - 1) {
        job = job.constr_retry().unwrap();
    }
    assert_eq!(job.attempt(), MAX_RETRIES);
    let exhausted = job.constr_retry().unwrap_err();
    assert_eq!(exhausted.url(), "https://www.youtube.com/watch?v=abcdefghijk");
    assert_eq!(
        exhausted.message(),
        "Unsucessfully tried 3 times to download https://www.youtube.com/watch?v=abcdefghijk, aborting job"
    );
}

#[test]
fn follow_and_check_jobs_hold_what_they_were_given() {
    let follow = JobFollowChannel::new(String::from("https://feed"), 7);
    assert_eq!(follow.rss_url(), "https://feed");
    assert_eq!(follow.download_as_of(), 7);
    let check = JobCheckChannel::new(String::from("https://other"));
    assert_eq!(check.rss_url(), "https://other");
}

#[test]
fn jobs_clone_to_equal_jobs() {
    let jobs = vec![
        Job::Download(JobDownloadVideo::new(String::from("a")).constr_retry().unwrap()),
        Job::Follow(JobFollowChannel::new(String::from("b"), 3)),
        Job::Check(JobCheckChannel::new(String::from("c"))),
    ];
    for job in &jobs {
        assert_eq!(&job.clone(), job);
    }
    assert_ne!(jobs[0], Job::Download(JobDownloadVideo::new(String::from("a"))));
}
