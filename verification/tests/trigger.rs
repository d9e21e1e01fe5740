use autotube::jobs::JobCheckChannel;
use autotube::trigger::{
    all_frequencies, select_due, shuf_channels_gen_sleeps, sleep_secs, Frequencies, NoChannels,
    Source, Trigger, TriggerAction, TriggerEvent, TriggerPhase,
};

fn source(feed_url: &str, frequency: &str, last_checked: Option<&str>) -> Source {
    Source {
        name: format!("name of {feed_url}"),
        platform: String::from("youtube"),
        feed_url: String::from(feed_url),
        check_frequency: String::from(frequency),
        last_checked: last_checked.map(String::from),
    }
}

fn registry() -> Vec<Source> {
    vec![
        source("a", "often", Some("2024-03-01T10:00:00+00:00")),
        source("b", "often", None),
        source("c", "rarely", Some("2024-03-01T10:00:00+00:00")),
        source("d", "often", Some("")),
        source("e", "sometimes", None),
        source("f", "Often", Some("2024-03-01T10:00:00+00:00")),
        source("g", "rarely", None),
        source("h", "sometimes", Some("2024-03-01T10:00:00+00:00")),
    ]
}

#[test]
fn frequencies_have_their_intervals_and_names() {
    assert_eq!(Frequencies::Often.get_dur_mins(), 120);
    assert_eq!(Frequencies::Sometimes.get_dur_mins(), 540);
    assert_eq!(Frequencies::Rarely.get_dur_mins(), 1440);
    for freq in all_frequencies() {
        assert_eq!(u64::from(freq.interval_secs()), freq.get_dur_mins() * 60);
        assert_eq!(Frequencies::parse(freq.name()), Some(freq));
    }
    assert_eq!(Frequencies::Often.name(), "often");
    assert_eq!(Frequencies::Sometimes.name(), "sometimes");
    assert_eq!(Frequencies::Rarely.name(), "rarely");
    assert_eq!(Frequencies::parse("daily"), None);
    assert_eq!(Frequencies::parse(""), None);
    assert_eq!(Frequencies::parse("oftener"), None);
    assert_eq!(
        all_frequencies(),
        [Frequencies::Often, Frequencies::Sometimes, Frequencies::Rarely]
    );
}

#[test]
fn sources_never_checked_are_not_selected() {
    assert_eq!(select_due(&registry(), Frequencies::Often), vec!["a", "d"]);
    assert_eq!(select_due(&registry(), Frequencies::Sometimes), vec!["h"]);
    assert_eq!(select_due(&registry(), Frequencies::Rarely), vec!["c"]);
    let unchecked: Vec<Source> = registry().into_iter().filter(|s| s.last_checked.is_none()).collect();
    for freq in all_frequencies() {
        assert_eq!(select_due(&unchecked, freq), Vec::<String>::new());
        assert_eq!(select_due(&Vec::new(), freq), Vec::<String>::new());
    }
}

#[test]
fn sleeps_for_ten_sources_in_an_hour_lie_between_90_and_270() {
    assert_eq!(sleep_secs(3600, 10, 0), 90);
    assert_eq!(sleep_secs(3600, 10, 3600), 180);
    assert_eq!(sleep_secs(3600, 10, 7200), 270);
    assert_eq!(sleep_secs(3600, 10, 39), 90);
    assert_eq!(sleep_secs(3600, 10, 40), 91);
    for draw in 0..=7200 {
        let secs = sleep_secs(3600, 10, draw);
        assert!((90..=270).contains(&secs));
    }
    // Nine pauses without jitter fill less than half the hour.
    assert!(9 * sleep_secs(3600, 10, 3600) <= 1800);
}

#[test]
fn sleeps_are_rounded_down() {
    assert_eq!(sleep_secs(7200, 7, 7200), 514);
    assert_eq!(sleep_secs(7200, 1, 0), 1800);
    assert_eq!(sleep_secs(7200, 1, 14400), 5400);
    assert_eq!(sleep_secs(1, 1, 2), 0);
    assert_eq!(sleep_secs(0, 5, 0), 0);
    assert_eq!(sleep_secs(u32::MAX, usize::MAX, u64::MAX), 0);
    assert_eq!(sleep_secs(u32::MAX, 1, u64::MAX), (u64::MAX / 4) + (u64::from(u32::MAX) + 3) / 4);
}

#[test]
fn shuffling_keeps_the_channels_and_draws_a_sleep_for_each() {
    let urls: Vec<String> = (0..10).map(|i| format!("feed {i}")).collect();
    for _ in 0..50 {
        let mut channels = urls.clone();
        let sleeps = shuf_channels_gen_sleeps(&mut channels, 3600).unwrap();
        assert_eq!(sleeps.len(), 10);
        assert!(sleeps.iter().all(|secs| (90..=270).contains(secs)));
        channels.sort();
        assert_eq!(channels, urls);
    }
}

#[test]
fn shuffling_varies_the_order_and_the_sleeps() {
    let urls: Vec<String> = (0..10).map(|i| format!("feed {i}")).collect();
    let mut orders = Vec::new();
    let mut all_sleeps = Vec::new();
    for _ in 0..20 {
        let mut channels = urls.clone();
        all_sleeps.push(shuf_channels_gen_sleeps(&mut channels, 3600).unwrap());
        orders.push(channels);
    }
    assert!(orders.iter().any(|order| order != &orders[0]));
    assert!(all_sleeps.iter().any(|sleeps| sleeps != &all_sleeps[0]));
}

#[test]
fn shuffling_nothing_fails() {
    let mut channels: Vec<String> = Vec::new();
    assert_eq!(shuf_channels_gen_sleeps(&mut channels, 3600), Err(NoChannels));
    let mut one = vec![String::from("only")];
    let sleeps = shuf_channels_gen_sleeps(&mut one, 7200).unwrap();
    assert_eq!(one, vec!["only"]);
    assert_eq!(sleeps.len(), 1);
    assert!((1800..=5400).contains(&sleeps[0]));
}

fn check(feed_url: &str) -> TriggerAction {
    TriggerAction::Send(JobCheckChannel::new(String::from(feed_url)))
}

#[test]
fn tick_polls_the_due_sources_with_pauses_between() {
    let mut trigger = Trigger::new(Frequencies::Often);
    assert_eq!(trigger.phase(), TriggerPhase::Idle);
    assert_eq!(trigger.frequency(), Frequencies::Often);
    assert_eq!(trigger.step(TriggerEvent::Tick), TriggerAction::Query(Frequencies::Often));
    let first = trigger.step(TriggerEvent::Sources(Some(registry())));
    let mut polled = Vec::new();
    match first {
        TriggerAction::Send(job) => polled.push(job.rss_url().to_string()),
        other => panic!("expected a check job, got {other:?}"),
    }
    match trigger.step(TriggerEvent::Sent(true)) {
        // Two sources in two hours: the step is half an hour.
        TriggerAction::Sleep(secs) => assert!((900..=2700).contains(&secs)),
        other => panic!("expected a pause, got {other:?}"),
    }
    assert_eq!(trigger.phase(), TriggerPhase::Sleeping);
    match trigger.step(TriggerEvent::Slept) {
        TriggerAction::Send(job) => polled.push(job.rss_url().to_string()),
        other => panic!("expected a check job, got {other:?}"),
    }
    // No pause after the last one.
    assert_eq!(trigger.step(TriggerEvent::Sent(true)), TriggerAction::AwaitTick);
    assert_eq!(trigger.phase(), TriggerPhase::Idle);
    polled.sort();
    assert_eq!(polled, vec!["a", "d"]);
    // The next tick starts over.
    assert_eq!(trigger.step(TriggerEvent::Tick), TriggerAction::Query(Frequencies::Often));
}

#[test]
fn tick_with_no_due_source_waits_for_the_next() {
    let mut trigger = Trigger::new(Frequencies::Rarely);
    trigger.step(TriggerEvent::Tick);
    let unchecked = vec![source("g", "rarely", None), source("a", "often", Some("x"))];
    assert_eq!(trigger.step(TriggerEvent::Sources(Some(unchecked))), TriggerAction::AwaitTick);
    assert_eq!(trigger.step(TriggerEvent::Tick), TriggerAction::Query(Frequencies::Rarely));
    assert_eq!(trigger.step(TriggerEvent::Sources(Some(Vec::new()))), TriggerAction::AwaitTick);
}

#[test]
fn registry_and_queue_failures_stop_the_loop() {
    let mut trigger = Trigger::new(Frequencies::Often);
    trigger.step(TriggerEvent::Tick);
    assert_eq!(trigger.step(TriggerEvent::Sources(None)), TriggerAction::Stop);
    assert_eq!(trigger.phase(), TriggerPhase::Stopped);
    assert_eq!(trigger.step(TriggerEvent::Tick), TriggerAction::Stop);

    let mut trigger = Trigger::new(Frequencies::Often);
    trigger.step(TriggerEvent::Tick);
    trigger.step(TriggerEvent::Sources(Some(registry())));
    assert_eq!(trigger.step(TriggerEvent::Sent(false)), TriggerAction::Stop);
    assert_eq!(trigger.step(TriggerEvent::Slept), TriggerAction::Stop);
}

#[test]
fn events_out_of_turn_stop_the_loop() {
    let mut trigger = Trigger::new(Frequencies::Often);
    assert_eq!(trigger.step(TriggerEvent::Slept), TriggerAction::Stop);
    let mut trigger = Trigger::new(Frequencies::Often);
    assert_eq!(trigger.step(TriggerEvent::Sources(Some(registry()))), TriggerAction::Stop);
    let mut trigger = Trigger::new(Frequencies::Often);
    trigger.step(TriggerEvent::Tick);
    assert_eq!(trigger.step(TriggerEvent::Tick), TriggerAction::Stop);
    let mut trigger = Trigger::new(Frequencies::Often);
    assert_eq!(trigger.emit_batch(vec![String::from("a")], vec![1]), TriggerAction::Stop);
}

#[test]
fn batch_goes_out_in_the_order_given() {
    let mut trigger = Trigger::new(Frequencies::Sometimes);
    trigger.step(TriggerEvent::Tick);
    let order = vec![String::from("x"), String::from("y"), String::from("z")];
    assert_eq!(trigger.emit_batch(order, vec![11, 22, 33]), check("x"));
    assert_eq!(trigger.step(TriggerEvent::Sent(true)), TriggerAction::Sleep(11));
    assert_eq!(trigger.step(TriggerEvent::Slept), check("y"));
    assert_eq!(trigger.step(TriggerEvent::Sent(true)), TriggerAction::Sleep(22));
    assert_eq!(trigger.step(TriggerEvent::Slept), check("z"));
    assert_eq!(trigger.step(TriggerEvent::Sent(true)), TriggerAction::AwaitTick);

    let mut trigger = Trigger::new(Frequencies::Sometimes);
    trigger.step(TriggerEvent::Tick);
    assert_eq!(trigger.emit_batch(Vec::new(), Vec::new()), TriggerAction::AwaitTick);

    // Two pauses are needed for three jobs.
    let mut trigger = Trigger::new(Frequencies::Sometimes);
    trigger.step(TriggerEvent::Tick);
    let order = vec![String::from("x"), String::from("y"), String::from("z")];
    assert_eq!(trigger.emit_batch(order, vec![11]), TriggerAction::Stop);
    let mut trigger = Trigger::new(Frequencies::Sometimes);
    trigger.step(TriggerEvent::Tick);
    let order = vec![String::from("x"), String::from("y"), String::from("z")];
    assert_eq!(trigger.emit_batch(order, vec![11, 22]), check("x"));
}
