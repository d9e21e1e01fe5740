//! The trigger scheduler: which sources are polled at a tick, in what order
//! and how far apart.

use crate::jobs::JobCheckChannel;
use crate::text::{lemma_none_kept, same_text, texts};
use rand::distr::Distribution;
use rand::seq::SliceRandom;
use vstd::prelude::*;

verus! {

/// How often a source is polled.
#[derive(Clone, Copy, Debug, PartialEq, Eq, Structural)]
pub enum Frequencies {
    Often,
    Sometimes,
    Rarely,
}

impl Frequencies {
    /// The minutes between two ticks of this class.
    pub open spec fn spec_dur_mins(self) -> nat {
        match self {
            Frequencies::Often => 120,
            Frequencies::Sometimes => 540,
            Frequencies::Rarely => 1440,
        }
    }

    /// The name under which the registry files this class.
    pub open spec fn spec_name(self) -> Seq<char> {
        match self {
            Frequencies::Often => "often"@,
            Frequencies::Sometimes => "sometimes"@,
            Frequencies::Rarely => "rarely"@,
        }
    }

    /// The minutes between two ticks of this class: 2, 9 and 24 hours.
    pub fn get_dur_mins(&self) -> (mins: u64)
        ensures
            mins == self.spec_dur_mins(),
    {
        match self {
            Frequencies::Often => 120,
            Frequencies::Sometimes => 540,
            Frequencies::Rarely => 1440,
        }
    }

    /// The seconds between two ticks of this class.
    pub fn interval_secs(&self) -> (secs: u32)
        ensures
            secs == self.spec_dur_mins() * 60,
    {
        match self {
            Frequencies::Often => 7_200,
            Frequencies::Sometimes => 32_400,
            Frequencies::Rarely => 86_400,
        }
    }

    /// The name under which the registry files this class.
    pub fn name(&self) -> (name: &'static str)
        ensures
            name@ == self.spec_name(),
    {
        match self {
            Frequencies::Often => "often",
            Frequencies::Sometimes => "sometimes",
            Frequencies::Rarely => "rarely",
        }
    }

    /// The class that goes by `name`.
    pub fn parse(name: &str) -> (r: Option<Frequencies>)
        ensures
            match r {
                Some(freq) => name@ == freq.spec_name(),
                None => forall|freq: Frequencies| name@ != #[trigger] freq.spec_name(),
            },
    {
        if same_text(name, "often") {
            Some(Frequencies::Often)
        } else if same_text(name, "sometimes") {
            Some(Frequencies::Sometimes)
        } else if same_text(name, "rarely") {
            Some(Frequencies::Rarely)
        } else {
            None
        }
    }
}

/// The three classes, in the order in which their loops are started.
pub fn all_frequencies() -> (all: [Frequencies; 3])
    ensures
        all@ == seq![Frequencies::Often, Frequencies::Sometimes, Frequencies::Rarely],
{
    [Frequencies::Often, Frequencies::Sometimes, Frequencies::Rarely]
}

/// The three classes go by three different names.
pub proof fn lemma_names_differ(a: Frequencies, b: Frequencies)
    ensures
        a.spec_name() == b.spec_name() <==> a == b,
{
    reveal_strlit("often");
    reveal_strlit("sometimes");
    reveal_strlit("rarely");
    if a != b {
        assert(a.spec_name().len() != b.spec_name().len());
    }
}

/// A source as the registry holds it.
#[derive(Debug, PartialEq, Eq)]
pub struct Source {
    pub name: String,
    pub platform: String,
    pub feed_url: String,
    /// The name of the source's frequency class.
    pub check_frequency: String,
    /// The time of the last check; absent until the first visit is complete.
    pub last_checked: Option<String>,
}

pub struct SourceView {
    pub name: Seq<char>,
    pub platform: Seq<char>,
    pub feed_url: Seq<char>,
    pub check_frequency: Seq<char>,
    pub last_checked: Option<Seq<char>>,
}

impl View for Source {
    type V = SourceView;

    open spec fn view(&self) -> SourceView {
        SourceView {
            name: self.name@,
            platform: self.platform@,
            feed_url: self.feed_url@,
            check_frequency: self.check_frequency@,
            last_checked: match self.last_checked {
                Some(text) => Some(text@),
                None => None,
            },
        }
    }
}

/// Each source of `sources` as a mathematical value.
pub open spec fn source_views(sources: Seq<Source>) -> Seq<SourceView> {
    sources.map_values(|source: Source| source@)
}

/// A source is polled at a tick of `freq` where it belongs to that class and
/// has been checked before.
pub open spec fn is_due(source: SourceView, freq: Frequencies) -> bool {
    source.check_frequency == freq.spec_name() && source.last_checked.is_some()
}

/// The sources of `sources` that are polled at a tick of `freq`, in order.
pub open spec fn due_sources(sources: Seq<SourceView>, freq: Frequencies) -> Seq<SourceView> {
    sources.filter(|source: SourceView| is_due(source, freq))
}

/// The feed URLs of the sources that are polled at a tick of `freq`.
pub open spec fn due_urls(sources: Seq<SourceView>, freq: Frequencies) -> Seq<Seq<char>> {
    due_sources(sources, freq).map_values(|source: SourceView| source.feed_url)
}

/// No source without a time of a last check is polled, whatever the class:
/// each source that is polled has been checked before and belongs to the
/// class, and leaving out a source that has never been checked changes
/// nothing.
pub proof fn lemma_unchecked_sources_wait(sources: Seq<SourceView>, freq: Frequencies)
    ensures
        forall|k: int|
            0 <= k < due_sources(sources, freq).len() ==> {
                &&& (#[trigger] due_sources(sources, freq)[k]).last_checked.is_some()
                &&& due_sources(sources, freq)[k].check_frequency == freq.spec_name()
                &&& sources.contains(due_sources(sources, freq)[k])
            },
        forall|i: int|
            0 <= i < sources.len() && sources[i].last_checked.is_none() ==> due_sources(
                #[trigger] sources.remove(i),
                freq,
            ) == due_sources(sources, freq),
{
    let due = |source: SourceView| is_due(source, freq);
    assert forall|k: int| 0 <= k < due_sources(sources, freq).len() implies {
        &&& (#[trigger] due_sources(sources, freq)[k]).last_checked.is_some()
        &&& due_sources(sources, freq)[k].check_frequency == freq.spec_name()
        &&& sources.contains(due_sources(sources, freq)[k])
    } by {
        sources.lemma_filter_pred(due, k);
        assert(sources.filter(due).contains(sources.filter(due)[k]));
        sources.lemma_filter_contains_rev(due, sources.filter(due)[k]);
    }
    assert forall|i: int|
        0 <= i < sources.len() && sources[i].last_checked.is_none() implies due_sources(
        #[trigger] sources.remove(i),
        freq,
    ) == due_sources(sources, freq) by {
        let head = sources.subrange(0, i);
        let tail = sources.subrange(i + 1, sources.len() as int);
        let one = seq![sources[i]];
        assert(sources =~= head + one + tail);
        assert(sources.remove(i) =~= head + tail);
        Seq::filter_distributes_over_add(head + one, tail, due);
        Seq::filter_distributes_over_add(head, one, due);
        Seq::filter_distributes_over_add(head, tail, due);
        assert(!due(one[0]));
        lemma_none_kept(one, due);
        assert(one.filter(due) =~= Seq::<SourceView>::empty());
        assert(head.filter(due) + one.filter(due) =~= head.filter(due));
    }
}

/// The feed URLs of the sources that are polled at a tick of `freq`: those
/// of the class that have been checked before.
pub fn select_due(sources: &Vec<Source>, freq: Frequencies) -> (urls: Vec<String>)
    ensures
        texts(urls@) == due_urls(source_views(sources@), freq),
{
    let mut urls: Vec<String> = Vec::new();
    let ghost all = source_views(sources@);
    let ghost due = |source: SourceView| is_due(source, freq);
    let ghost url_of = |source: SourceView| source.feed_url;
    let mut i: usize = 0;
    proof {
        assert(all.take(0) =~= Seq::empty());
        assert(texts(urls@) =~= all.take(0).filter(due).map_values(url_of));
    }
    while i < sources.len()
        invariant
            i <= sources.len(),
            all == source_views(sources@),
            due == |source: SourceView| is_due(source, freq),
            url_of == |source: SourceView| source.feed_url,
            texts(urls@) == all.take(i as int).filter(due).map_values(url_of),
        decreases sources.len() - i,
    {
        let ghost kept = all.take(i as int).filter(due);
        proof {
            all.take(i as int).lemma_filter_push(all[i as int], due);
            assert(all.take(i + 1) =~= all.take(i as int).push(all[i as int]));
        }
        let checked = sources[i].last_checked.is_some();
        if checked && same_text(sources[i].check_frequency.as_str(), freq.name()) {
            urls.push(sources[i].feed_url.clone());
            proof {
                assert(is_due(all[i as int], freq));
                assert(all.take(i + 1).filter(due) == kept.push(all[i as int]));
                assert(kept.push(all[i as int]).map_values(url_of) =~= kept.map_values(
                    url_of,
                ).push(all[i as int].feed_url));
                assert(texts(urls@) =~= kept.map_values(url_of).push(all[i as int].feed_url));
            }
        } else {
            proof {
                assert(!is_due(all[i as int], freq));
            }
        }
        i += 1;
    }
    proof {
        assert(all.take(i as int) =~= all);
    }
    urls
}


/// The pauses between the emissions of a tick.
///
/// The emissions are spread over the first half of the interval: with
/// `count` sources the step from one emission to the next is
/// `interval_secs / (2 * count)` seconds. Each pause is the step and a
/// jitter between minus and plus half a step, rounded down to whole seconds.
/// The jitter is drawn on a grid of `1 / (4 * count)` seconds, on which the
/// step is `2 * interval_secs` wide and the jitter is `draw - interval_secs`
/// for a `draw` between 0 and `widest_draw(interval_secs)`.
pub open spec fn sleep_for(interval_secs: nat, count: nat, draw: nat) -> nat {
    (interval_secs + draw) / (4 * count)
}

/// The largest draw: a jitter of half a step.
pub open spec fn widest_draw(interval_secs: nat) -> nat {
    2 * interval_secs
}

/// The shortest pause: half a step, rounded down.
pub open spec fn shortest_sleep(interval_secs: nat, count: nat) -> nat {
    interval_secs / (4 * count)
}

/// The longest pause: a step and a half, rounded down.
pub open spec fn longest_sleep(interval_secs: nat, count: nat) -> nat {
    (3 * interval_secs) / (4 * count)
}

/// Every pause lies between half a step and a step and a half.
pub open spec fn sleeps_in_range(sleeps: Seq<u64>, interval_secs: nat, count: nat) -> bool {
    forall|i: int|
        0 <= i < sleeps.len() ==> shortest_sleep(interval_secs, count) <= (#[trigger] sleeps[i])
            <= longest_sleep(interval_secs, count)
}

/// The sum of `sleeps`.
pub open spec fn total_sleep(sleeps: Seq<nat>) -> nat
    decreases sleeps.len(),
{
    if sleeps.len() == 0 {
        0
    } else {
        total_sleep(sleeps.drop_last()) + sleeps.last()
    }
}

/// The sum of `draws`.
pub open spec fn total_draw(draws: Seq<nat>) -> nat
    decreases draws.len(),
{
    if draws.len() == 0 {
        0
    } else {
        total_draw(draws.drop_last()) + draws.last()
    }
}

/// The pauses that the draws `draws` give.
pub open spec fn sleeps_for(interval_secs: nat, count: nat, draws: Seq<nat>) -> Seq<nat> {
    draws.map_values(|draw: nat| sleep_for(interval_secs, count, draw))
}

/// Whatever is drawn, the pause lies between half a step and a step and a
/// half, both rounded down.
pub proof fn lemma_sleep_bounds(interval_secs: nat, count: nat, draw: nat)
    requires
        count > 0,
        draw <= widest_draw(interval_secs),
    ensures
        shortest_sleep(interval_secs, count) <= sleep_for(interval_secs, count, draw)
            <= longest_sleep(interval_secs, count),
{
    vstd::arithmetic::div_mod::lemma_div_is_ordered(
        interval_secs as int,
        (interval_secs + draw) as int,
        (4 * count) as int,
    );
    vstd::arithmetic::div_mod::lemma_div_is_ordered(
        (interval_secs + draw) as int,
        (3 * interval_secs) as int,
        (4 * count) as int,
    );
}

/// Four times the number of sources times the sum of the pauses is at most
/// the sum of what the pauses were rounded down from.
proof fn lemma_total_sleep(interval_secs: nat, count: nat, draws: Seq<nat>)
    requires
        count > 0,
    ensures
        4 * count * total_sleep(sleeps_for(interval_secs, count, draws)) <= draws.len()
            * interval_secs + total_draw(draws),
    decreases draws.len(),
{
    let sleeps = sleeps_for(interval_secs, count, draws);
    let grid = (4 * count) as int;
    if draws.len() == 0 {
        assert(total_sleep(sleeps) == 0);
        assert(grid * 0 == 0);
    } else {
        let front = draws.drop_last();
        lemma_total_sleep(interval_secs, count, front);
        assert(sleeps.drop_last() =~= sleeps_for(interval_secs, count, front));
        let last = sleep_for(interval_secs, count, draws.last());
        assert(sleeps.last() == last);
        let before = total_sleep(sleeps.drop_last());
        let width = (interval_secs + draws.last()) as int;
        vstd::arithmetic::div_mod::lemma_fundamental_div_mod(width, grid);
        vstd::arithmetic::div_mod::lemma_remainder_lower(width, grid);
        assert(last == width / grid);
        assert(grid * last <= width);
        assert(total_sleep(sleeps) == before + last);
        assert(total_draw(draws) == total_draw(front) + draws.last());
        assert(grid * before <= front.len() * interval_secs + total_draw(front));
        assert(grid * (before + last) == grid * before + grid * last) by (nonlinear_arith);
        assert(draws.len() * interval_secs == front.len() * interval_secs + interval_secs)
            by (nonlinear_arith)
            requires
                draws.len() == front.len() + 1,
        ;
    }
}

/// The pauses of a tick add up to no more than half the interval where the
/// jitters add up to nothing or less: with `count` sources there are
/// `count - 1` pauses, and a jitter of nothing is a draw of
/// `interval_secs`.
pub proof fn lemma_pauses_fill_half_interval(interval_secs: nat, count: nat, draws: Seq<nat>)
    requires
        count > 0,
        draws.len() == count - 1,
        total_draw(draws) <= draws.len() * interval_secs,
    ensures
        2 * total_sleep(sleeps_for(interval_secs, count, draws)) <= interval_secs,
{
    lemma_total_sleep(interval_secs, count, draws);
    let total = total_sleep(sleeps_for(interval_secs, count, draws));
    assert(2 * total <= interval_secs) by (nonlinear_arith)
        requires
            count > 0,
            4 * count * total <= 2 * ((count - 1) * interval_secs),
    ;
}

/// The pause that the draw `draw` gives at a tick with `count` sources.
pub fn sleep_secs(interval_secs: u32, count: usize, draw: u64) -> (secs: u64)
    requires
        count > 0,
    ensures
        secs == sleep_for(interval_secs as nat, count as nat, draw as nat),
{
    let grid: u128 = 4 * (count as u128);
    let width: u128 = interval_secs as u128 + draw as u128;
    let secs: u128 = width / grid;
    proof {
        vstd::arithmetic::div_mod::lemma_div_is_ordered_by_denominator(
            width as int,
            4,
            grid as int,
        );
        assert(width / 4 <= u64::MAX);
    }
    secs as u64
}

/// `rand::distr::uniform::Error`, the reason for which a range is refused. It
/// is carried through and never looked into.
#[verifier::external_type_specification]
#[verifier::external_body]
pub struct ExUniformError(rand::distr::uniform::Error);

/// Makes the range from `low` to `high`, both included, with
/// `rand::distr::Uniform::new_inclusive` and draws from it with
/// `Distribution::sample` and the generator `rand::rng()`. An empty range is
/// refused; any other gives a number within it. Which one is left open.
#[verifier::external_body]
pub(crate) fn uniform_draw(low: u64, high: u64) -> (r: Result<u64, rand::distr::uniform::Error>)
    ensures
        r.is_ok() == (low <= high),
        r matches Ok(draw) ==> low <= draw <= high,
{
    let range = rand::distr::Uniform::new_inclusive(low, high)?;
    Ok(range.sample(&mut rand::rng()))
}

/// Shuffles with `rand::seq::SliceRandom::shuffle` and the generator
/// `rand::rng()`. The items are the same afterwards, each as often as
/// before. In which order is left open.
#[verifier::external_body]
pub(crate) fn shuffle_urls(urls: &mut Vec<String>)
    ensures
        texts(final(urls)@).to_multiset() == texts(old(urls)@).to_multiset(),
        final(urls)@.len() == old(urls)@.len(),
{
    urls.shuffle(&mut rand::rng());
}

/// A tick has nothing to do.
#[derive(Clone, Copy, Debug, PartialEq, Eq, Structural)]
pub struct NoChannels;

/// Puts the feed URLs of a tick in a random order and draws the pauses
/// between their emissions, one for each URL: the last one is not slept.
/// With no URL there is no step to draw around, and the call fails.
pub fn shuf_channels_gen_sleeps(channels: &mut Vec<String>, interval_secs: u32) -> (r: Result<
    Vec<u64>,
    NoChannels,
>)
    ensures
        texts(final(channels)@).to_multiset() == texts(old(channels)@).to_multiset(),
        final(channels)@.len() == old(channels)@.len(),
        match r {
            Ok(sleeps) => {
                &&& old(channels)@.len() > 0
                &&& sleeps@.len() == old(channels)@.len()
                &&& sleeps_in_range(sleeps@, interval_secs as nat, old(channels)@.len())
            },
            Err(_) => old(channels)@.len() == 0,
        },
{
    if channels.len() == 0 {
        return Err(NoChannels);
    }
    shuffle_urls(channels);
    let count: usize = channels.len();
    let widest: u64 = 2 * (interval_secs as u64);
    let mut sleeps: Vec<u64> = Vec::new();
    while sleeps.len() < count
        invariant
            count > 0,
            widest == widest_draw(interval_secs as nat),
            sleeps@.len() <= count,
            sleeps_in_range(sleeps@, interval_secs as nat, count as nat),
        decreases count - sleeps.len(),
    {
        match uniform_draw(0, widest) {
            Ok(draw) => {
                proof {
                    lemma_sleep_bounds(interval_secs as nat, count as nat, draw as nat);
                }
                sleeps.push(sleep_secs(interval_secs, count, draw));
            },
            Err(_) => {
                return Err(NoChannels);
            },
        }
    }
    Ok(sleeps)
}


/// How far the loop of one frequency class has come.
#[derive(Clone, Copy, Debug, PartialEq, Eq, Structural)]
pub enum TriggerPhase {
    /// Waiting for the next tick.
    Idle,
    /// The registry was asked for the sources.
    Querying,
    /// A check job was handed out for the queue.
    Sending,
    /// Pausing before the next emission.
    Sleeping,
    /// The loop has ended.
    Stopped,
}

/// What happened in the loop of a frequency class.
#[derive(Debug, PartialEq, Eq)]
pub enum TriggerEvent {
    /// The timer fired.
    Tick,
    /// The registry handed over its sources, or could not be read.
    Sources(Option<Vec<Source>>),
    /// The job handed out last went on the queue, or the queue refused it.
    Sent(bool),
    /// The pause is over.
    Slept,
}

pub enum TriggerEventView {
    Tick,
    Sources(Option<Seq<SourceView>>),
    Sent(bool),
    Slept,
}

impl View for TriggerEvent {
    type V = TriggerEventView;

    open spec fn view(&self) -> TriggerEventView {
        match self {
            TriggerEvent::Tick => TriggerEventView::Tick,
            TriggerEvent::Sources(sources) => TriggerEventView::Sources(
                match sources {
                    Some(sources) => Some(source_views(sources@)),
                    None => None,
                },
            ),
            TriggerEvent::Sent(done) => TriggerEventView::Sent(*done),
            TriggerEvent::Slept => TriggerEventView::Slept,
        }
    }
}

/// What the loop of a frequency class is to do next.
#[derive(Debug, PartialEq, Eq)]
pub enum TriggerAction {
    /// Wait for the next tick.
    AwaitTick,
    /// Ask the registry for its sources.
    Query(Frequencies),
    /// Put a check job on the queue.
    Send(JobCheckChannel),
    /// Pause for so many seconds.
    Sleep(u64),
    /// End the loop.
    Stop,
}

pub enum TriggerActionView {
    AwaitTick,
    Query(Frequencies),
    Send(Seq<char>),
    Sleep(u64),
    Stop,
}

impl View for TriggerAction {
    type V = TriggerActionView;

    open spec fn view(&self) -> TriggerActionView {
        match self {
            TriggerAction::AwaitTick => TriggerActionView::AwaitTick,
            TriggerAction::Query(freq) => TriggerActionView::Query(*freq),
            TriggerAction::Send(job) => TriggerActionView::Send(job@),
            TriggerAction::Sleep(secs) => TriggerActionView::Sleep(*secs),
            TriggerAction::Stop => TriggerActionView::Stop,
        }
    }
}

/// The loop of one frequency class.
#[derive(Debug, PartialEq, Eq)]
pub struct Trigger {
    freq: Frequencies,
    phase: TriggerPhase,
    urls: Vec<String>,
    pauses: Vec<u64>,
}

pub struct TriggerView {
    pub freq: Frequencies,
    pub phase: TriggerPhase,
    /// The feed URLs for which a check job is still to be handed out at this
    /// tick.
    pub urls: Seq<Seq<char>>,
    /// The pause before each of them.
    pub pauses: Seq<u64>,
}

impl View for Trigger {
    type V = TriggerView;

    closed spec fn view(&self) -> TriggerView {
        TriggerView {
            freq: self.freq,
            phase: self.phase,
            urls: texts(self.urls@),
            pauses: self.pauses@,
        }
    }
}

/// The loop ends.
pub open spec fn stop_trigger(run: TriggerView) -> (TriggerView, TriggerActionView) {
    (
        TriggerView { phase: TriggerPhase::Stopped, urls: Seq::empty(), pauses: Seq::empty(), ..run },
        TriggerActionView::Stop,
    )
}

/// The loop waits for the next tick.
pub open spec fn rest_trigger(run: TriggerView) -> (TriggerView, TriggerActionView) {
    (
        TriggerView { phase: TriggerPhase::Idle, urls: Seq::empty(), pauses: Seq::empty(), ..run },
        TriggerActionView::AwaitTick,
    )
}

/// What follows once the feed URLs of a tick stand in the order `order` and
/// the pauses `sleeps` are drawn: with no URL the loop waits for the next
/// tick; else the first check job goes out, and each further one after the
/// pause that stands at the place of the job before it.
pub open spec fn batch_step(run: TriggerView, order: Seq<Seq<char>>, sleeps: Seq<u64>) -> (
    TriggerView,
    TriggerActionView,
) {
    if run.phase != TriggerPhase::Querying {
        stop_trigger(run)
    } else if order.len() == 0 {
        rest_trigger(run)
    } else if sleeps.len() + 1 < order.len() {
        stop_trigger(run)
    } else {
        (
            TriggerView {
                phase: TriggerPhase::Sending,
                urls: order.skip(1),
                pauses: sleeps.take(order.len() - 1),
                ..run
            },
            TriggerActionView::Send(order[0]),
        )
    }
}

/// `order` and `sleeps` are a way to poll the sources `due` at a tick:
/// `order` holds the same feed URLs, each as often, and `sleeps` holds one
/// pause for each, between half a step and a step and a half long.
pub open spec fn is_batch(
    order: Seq<Seq<char>>,
    sleeps: Seq<u64>,
    due: Seq<Seq<char>>,
    interval_secs: nat,
) -> bool {
    &&& order.to_multiset() == due.to_multiset()
    &&& order.len() == due.len()
    &&& sleeps.len() == due.len()
    &&& sleeps_in_range(sleeps, interval_secs, due.len())
}

/// The state of the loop after `event`, and what it is to do next. Where the
/// event brings the sources, `order` is the order in which those that are
/// due are polled, and `sleeps` holds the pauses.
pub open spec fn trigger_step(
    run: TriggerView,
    event: TriggerEventView,
    order: Seq<Seq<char>>,
    sleeps: Seq<u64>,
) -> (TriggerView, TriggerActionView) {
    match (run.phase, event) {
        (TriggerPhase::Idle, TriggerEventView::Tick) => (
            TriggerView {
                phase: TriggerPhase::Querying,
                urls: Seq::empty(),
                pauses: Seq::empty(),
                ..run
            },
            TriggerActionView::Query(run.freq),
        ),
        (TriggerPhase::Querying, TriggerEventView::Sources(None)) => stop_trigger(run),
        (TriggerPhase::Querying, TriggerEventView::Sources(Some(_))) => batch_step(
            run,
            order,
            sleeps,
        ),
        (TriggerPhase::Sending, TriggerEventView::Sent(false)) => stop_trigger(run),
        (TriggerPhase::Sending, TriggerEventView::Sent(true)) => if run.urls.len() == 0
            || run.pauses.len() == 0 {
            rest_trigger(run)
        } else {
            (
                TriggerView { phase: TriggerPhase::Sleeping, ..run },
                TriggerActionView::Sleep(run.pauses[0]),
            )
        },
        (TriggerPhase::Sleeping, TriggerEventView::Slept) => if run.urls.len() == 0
            || run.pauses.len() == 0 {
            rest_trigger(run)
        } else {
            (
                TriggerView {
                    phase: TriggerPhase::Sending,
                    urls: run.urls.skip(1),
                    pauses: run.pauses.skip(1),
                    ..run
                },
                TriggerActionView::Send(run.urls[0]),
            )
        },
        _ => stop_trigger(run),
    }
}

/// Where `event` brings the sources to a loop that has asked for them,
/// `order` and `sleeps` are a way to poll those that are due.
pub open spec fn polls_what_is_due(
    run: TriggerView,
    event: TriggerEventView,
    order: Seq<Seq<char>>,
    sleeps: Seq<u64>,
) -> bool {
    run.phase == TriggerPhase::Querying ==> (event matches TriggerEventView::Sources(
        Some(sources),
    ) ==> is_batch(order, sleeps, due_urls(sources, run.freq), run.freq.spec_dur_mins() * 60))
}

impl Trigger {
    /// The loop of the class `freq`, waiting for its first tick.
    pub fn new(freq: Frequencies) -> (run: Trigger)
        ensures
            run@ == (TriggerView {
                freq,
                phase: TriggerPhase::Idle,
                urls: Seq::empty(),
                pauses: Seq::empty(),
            }),
    {
        let run = Trigger { freq, phase: TriggerPhase::Idle, urls: Vec::new(), pauses: Vec::new() };
        proof {
            assert(texts(run.urls@) =~= Seq::empty());
        }
        run
    }

    pub fn phase(&self) -> (phase: TriggerPhase)
        ensures
            phase == self@.phase,
    {
        self.phase
    }

    pub fn frequency(&self) -> (freq: Frequencies)
        ensures
            freq == self@.freq,
    {
        self.freq
    }

    fn clear(&mut self, phase: TriggerPhase)
        ensures
            final(self)@ == (TriggerView {
                phase,
                urls: Seq::empty(),
                pauses: Seq::empty(),
                ..old(self)@
            }),
    {
        self.phase = phase;
        self.urls = Vec::new();
        self.pauses = Vec::new();
        proof {
            assert(texts(self.urls@) =~= Seq::empty());
        }
    }

    fn stop(&mut self) -> (action: TriggerAction)
        ensures
            (final(self)@, action@) == stop_trigger(old(self)@),
    {
        self.clear(TriggerPhase::Stopped);
        TriggerAction::Stop
    }

    fn rest(&mut self) -> (action: TriggerAction)
        ensures
            (final(self)@, action@) == rest_trigger(old(self)@),
    {
        self.clear(TriggerPhase::Idle);
        TriggerAction::AwaitTick
    }

    /// What follows once the feed URLs of a tick stand in the order `order`
    /// and the pauses `sleeps` are drawn.
    pub fn emit_batch(&mut self, order: Vec<String>, sleeps: Vec<u64>) -> (action: TriggerAction)
        ensures
            (final(self)@, action@) == batch_step(old(self)@, texts(order@), sleeps@),
    {
        let mut order = order;
        let mut sleeps = sleeps;
        let ghost given = texts(order@);
        match self.phase {
            TriggerPhase::Querying => {
                if order.len() == 0 {
                    self.rest()
                } else if sleeps.len() < order.len() - 1 {
                    self.stop()
                } else {
                    sleeps.truncate(order.len() - 1);
                    let first = order.remove(0);
                    proof {
                        assert(texts(order@) =~= given.skip(1));
                        assert(first@ == given[0]);
                    }
                    self.urls = order;
                    self.pauses = sleeps;
                    self.phase = TriggerPhase::Sending;
                    TriggerAction::Send(JobCheckChannel::new(first))
                }
            },
            _ => self.stop(),
        }
    }

    /// Takes in what has happened and says what the loop is to do next.
    ///
    /// A tick polls the sources of the class that have been checked before,
    /// in a random order and with random pauses: all that is promised of
    /// them is that they are a way to poll those sources.
    pub fn step(&mut self, event: TriggerEvent) -> (action: TriggerAction)
        ensures
            exists|order: Seq<Seq<char>>, sleeps: Seq<u64>|
                (final(self)@, action@) == #[trigger] trigger_step(old(self)@, event@, order, sleeps)
                    && polls_what_is_due(old(self)@, event@, order, sleeps),
    {
        let ghost before = self@;
        let ghost nothing: Seq<Seq<char>> = Seq::empty();
        let ghost no_sleeps: Seq<u64> = Seq::empty();
        match event {
            TriggerEvent::Tick => match self.phase {
                TriggerPhase::Idle => {
                    self.clear(TriggerPhase::Querying);
                    let action = TriggerAction::Query(self.freq);
                    proof {
                        assert((self@, action@) == trigger_step(before, event@, nothing, no_sleeps));
                    }
                    action
                },
                _ => {
                    let action = self.stop();
                    proof {
                        assert((self@, action@) == trigger_step(before, event@, nothing, no_sleeps));
                    }
                    action
                },
            },
            TriggerEvent::Sources(sources) => match self.phase {
                TriggerPhase::Querying => match sources {
                    None => {
                        let action = self.stop();
                        proof {
                            assert((self@, action@) == trigger_step(
                                before,
                                event@,
                                nothing,
                                no_sleeps,
                            ));
                        }
                        action
                    },
                    Some(sources) => {
                        let mut order = select_due(&sources, self.freq);
                        let ghost due = texts(order@);
                        let sleeps = match shuf_channels_gen_sleeps(
                            &mut order,
                            self.freq.interval_secs(),
                        ) {
                            Ok(sleeps) => sleeps,
                            Err(_) => Vec::new(),
                        };
                        let ghost chosen = texts(order@);
                        let ghost drawn = sleeps@;
                        proof {
                            assert(chosen.len() == order@.len());
                            assert(due.len() == chosen.len());
                            assert(is_batch(
                                chosen,
                                drawn,
                                due,
                                before.freq.spec_dur_mins() * 60,
                            ));
                        }
                        let action = self.emit_batch(order, sleeps);
                        proof {
                            assert((self@, action@) == trigger_step(
                                before,
                                event@,
                                chosen,
                                drawn,
                            ));
                        }
                        action
                    },
                },
                _ => {
                    let action = self.stop();
                    proof {
                        assert((self@, action@) == trigger_step(before, event@, nothing, no_sleeps));
                    }
                    action
                },
            },
            TriggerEvent::Sent(done) => {
                let action = match self.phase {
                    TriggerPhase::Sending => {
                        if !done {
                            self.stop()
                        } else if self.urls.len() == 0 || self.pauses.len() == 0 {
                            self.rest()
                        } else {
                            self.phase = TriggerPhase::Sleeping;
                            TriggerAction::Sleep(self.pauses[0])
                        }
                    },
                    _ => self.stop(),
                };
                proof {
                    assert((self@, action@) == trigger_step(before, event@, nothing, no_sleeps));
                }
                action
            },
            TriggerEvent::Slept => {
                let action = match self.phase {
                    TriggerPhase::Sleeping => {
                        if self.urls.len() == 0 || self.pauses.len() == 0 {
                            self.rest()
                        } else {
                            let ghost waiting = texts(self.urls@);
                            let first = self.urls.remove(0);
                            let pause = self.pauses.remove(0);
                            proof {
                                assert(texts(self.urls@) =~= waiting.skip(1));
                                assert(self.pauses@ =~= before.pauses.skip(1));
                                assert(first@ == waiting[0]);
                            }
                            self.phase = TriggerPhase::Sending;
                            TriggerAction::Send(JobCheckChannel::new(first))
                        }
                    },
                    _ => self.stop(),
                };
                proof {
                    assert((self@, action@) == trigger_step(before, event@, nothing, no_sleeps));
                }
                action
            },
        }
    }
}

} // verus!
