//! The feed diff engine: from the text of a feed to its items, newest first,
//! and to the URLs of the most recent ones or of those published since a
//! given moment.

use crate::text::{append_chars, chars_of, string_of, texts};
use crate::time::{parse_relaxed, relaxed_datetime, Timestamp};
use vstd::prelude::*;

verus! {

/// One item record of a feed: an `<entry>` that holds a link to a video with
/// an identifier of eleven characters and, after it, the time of publication.
/// The first group is the video's URL, the second the publication time.
pub const ENTRY_PATTERN: &'static str =
    r#"<entry>(?s:.+?)<link rel="alternate" href="(https://www\.youtube\.com/watch\?v=.{11})"/>(?s:.+?)<published>(\d{4}-\d{2}-\d{2}T\d{2}:\d{2}:\d{2}\+\d{2}:\d{2})</published>(?s:.+?)</entry>"#;

/// Why a feed could not be read.
#[derive(Debug, PartialEq, Eq)]
pub enum FeedError {
    /// The matcher refused the entry pattern.
    Pattern,
    /// An item's publication time is no date-time; holds the text found.
    Date(String),
}

/// The kind of a `FeedError`.
#[derive(Clone, Copy, Debug, PartialEq, Eq, Structural)]
pub enum FeedFault {
    Pattern,
    Date,
}

impl FeedError {
    /// The kind of failure.
    pub open spec fn fault(self) -> FeedFault {
        match self {
            FeedError::Pattern => FeedFault::Pattern,
            FeedError::Date(_) => FeedFault::Date,
        }
    }

    pub open spec fn spec_message(self) -> Seq<char> {
        match self {
            FeedError::Pattern => "Couldn't compile the pattern of a feed entry"@,
            FeedError::Date(text) => "Couldn't parse publication date "@ + text@
                + " into valid chrono date"@,
        }
    }

    /// What is reported of the feed.
    pub fn message(&self) -> (text: String)
        ensures
            text@ == self.spec_message(),
    {
        match self {
            FeedError::Pattern => "Couldn't compile the pattern of a feed entry".to_owned(),
            FeedError::Date(date) => {
                let mut chars = chars_of("Couldn't parse publication date ");
                append_chars(&mut chars, &chars_of(date.as_str()));
                append_chars(&mut chars, &chars_of(" into valid chrono date"));
                let text = string_of(&chars, 0, chars.len());
                proof {
                    assert(text@ =~= chars@);
                }
                text
            },
        }
    }
}

/// `regex::Error`, the reason for which a pattern is refused. It is carried
/// through and never looked into.
#[verifier::external_type_specification]
#[verifier::external_body]
pub struct ExRegexError(regex::Error);

/// The successive non-overlapping matches of the regular expression `pattern`
/// in `text`, as the `regex` crate finds them: for each match the text of its
/// first and of its second capture group, `None` for a group that took no
/// part in the match.
pub uninterp spec fn regex_captures(pattern: Seq<char>, text: Seq<char>) -> Seq<
    (Option<Seq<char>>, Option<Seq<char>>),
>;

/// Whether `regex::Regex::new` takes `pattern`: it is a regular expression
/// in the crate's syntax and compiles within the crate's own size limits.
pub uninterp spec fn pattern_accepted(pattern: Seq<char>) -> bool;

/// The two groups of each match, as sequences of characters.
pub open spec fn capture_views(pairs: Seq<(Option<String>, Option<String>)>) -> Seq<
    (Option<Seq<char>>, Option<Seq<char>>),
> {
    pairs.map_values(
        |pair: (Option<String>, Option<String>)|
            (
                match pair.0 {
                    Some(t) => Some(t@),
                    None => None,
                },
                match pair.1 {
                    Some(t) => Some(t@),
                    None => None,
                },
            ),
    )
}

/// Compiles `pattern` with `regex::Regex::new` and walks `text` with
/// `Regex::captures_iter`, reading groups 1 and 2 of each match with
/// `Captures::get`. The call fails where `Regex::new` refuses the pattern,
/// and only there: the contract names that after the pattern alone. Where
/// the pattern is taken, it names the list of matches after the pattern and
/// the text alone.
#[verifier::external_body]
pub(crate) fn capture_pairs(pattern: &str, text: &str) -> (r: Result<
    Vec<(Option<String>, Option<String>)>,
    regex::Error,
>)
    ensures
        r.is_ok() == pattern_accepted(pattern@),
        r matches Ok(pairs) ==> capture_views(pairs@) == regex_captures(pattern@, text@),
{
    let matcher = regex::Regex::new(pattern)?;
    Ok(
        matcher.captures_iter(text).map(
            |found|
                (
                    found.get(1).map(|group| group.as_str().to_string()),
                    found.get(2).map(|group| group.as_str().to_string()),
                ),
        ).collect(),
    )
}

/// The text of a capture group, empty for a group that took no part.
pub open spec fn group_text(group: Option<Seq<char>>) -> Seq<char> {
    match group {
        Some(t) => t,
        None => Seq::empty(),
    }
}

/// The publication time of a captured item, where its text is a date-time.
pub open spec fn published(capture: (Option<Seq<char>>, Option<Seq<char>>)) -> Option<Timestamp> {
    relaxed_datetime(group_text(capture.1))
}

/// Every captured item has a publication time that is a date-time.
pub open spec fn all_dated(captures: Seq<(Option<Seq<char>>, Option<Seq<char>>)>) -> bool {
    forall|i: int| 0 <= i < captures.len() ==> (#[trigger] published(captures[i])).is_some()
}

/// The captured items as pairs of publication time and URL, in feed order.
pub open spec fn stamped(captures: Seq<(Option<Seq<char>>, Option<Seq<char>>)>) -> Seq<
    (Timestamp, Seq<char>),
> {
    captures.map_values(
        |c: (Option<Seq<char>>, Option<Seq<char>>)| (published(c).unwrap(), group_text(c.0)),
    )
}

/// Where a new item published at `at` goes in a list that is newest first:
/// behind every item that is not earlier than it.
pub open spec fn slot_for<T>(sorted: Seq<(Timestamp, T)>, at: Timestamp) -> int
    decreases sorted.len(),
{
    if sorted.len() == 0 || sorted[0].0.before(at) {
        0
    } else {
        1 + slot_for(sorted.drop_first(), at)
    }
}

/// The items of `entries` ordered from the most recent to the least recent;
/// items published at the same moment keep the order they came in.
pub open spec fn newest_first<T>(entries: Seq<(Timestamp, T)>) -> Seq<(Timestamp, T)>
    decreases entries.len(),
{
    if entries.len() == 0 {
        entries
    } else {
        let rest = newest_first(entries.drop_last());
        rest.insert(slot_for(rest, entries.last().0), entries.last())
    }
}

/// No item of `entries` is followed by a more recent one.
pub open spec fn is_newest_first<T>(entries: Seq<(Timestamp, T)>) -> bool {
    forall|i: int, j: int|
        0 <= i <= j < entries.len() ==> (#[trigger] entries[i]).0.at_or_after(
            (#[trigger] entries[j]).0,
        )
}

/// What a feed with the captured items `captures` holds, newest first; `None`
/// where one of the publication times is no date-time.
pub open spec fn recent_of(captures: Seq<(Option<Seq<char>>, Option<Seq<char>>)>) -> Option<
    Seq<(Timestamp, Seq<char>)>,
> {
    if all_dated(captures) {
        Some(newest_first(stamped(captures)))
    } else {
        None
    }
}

/// The items of the feed `feed_text`, newest first; `None` where one of the
/// publication times is no date-time.
pub open spec fn recent_entries(feed_text: Seq<char>) -> Option<Seq<(Timestamp, Seq<char>)>> {
    recent_of(regex_captures(ENTRY_PATTERN@, feed_text))
}

/// What reading the feed `feed_text` comes to: its items, newest first, or
/// the kind of failure. The matcher has to take the pattern of an item
/// record, and every publication time has to be a date-time.
pub open spec fn feed_outcome(feed_text: Seq<char>) -> Result<
    Seq<(Timestamp, Seq<char>)>,
    FeedFault,
> {
    if !pattern_accepted(ENTRY_PATTERN@) {
        Err(FeedFault::Pattern)
    } else {
        match recent_entries(feed_text) {
            Some(entries) => Ok(entries),
            None => Err(FeedFault::Date),
        }
    }
}

/// The URLs of `entries`, in order.
pub open spec fn urls_of(entries: Seq<(Timestamp, Seq<char>)>) -> Seq<Seq<char>> {
    entries.map_values(|e: (Timestamp, Seq<char>)| e.1)
}

/// The first `n` items of `entries`, or all of them where there are fewer.
pub open spec fn first_n(entries: Seq<(Timestamp, Seq<char>)>, n: nat) -> Seq<
    (Timestamp, Seq<char>),
> {
    if n <= entries.len() {
        entries.take(n as int)
    } else {
        entries
    }
}

/// The items of `entries` published at `as_of` or later, in order.
pub open spec fn published_since(entries: Seq<(Timestamp, Seq<char>)>, as_of: Timestamp) -> Seq<
    (Timestamp, Seq<char>),
> {
    entries.filter(|e: (Timestamp, Seq<char>)| e.0.at_or_after(as_of))
}

/// Exec items as pairs of publication time and URL text.
pub open spec fn entry_views(entries: Seq<(Timestamp, String)>) -> Seq<(Timestamp, Seq<char>)> {
    entries.map_values(|e: (Timestamp, String)| (e.0, e.1@))
}


/// The slot for a new item lies within the list, every item before it is not
/// earlier than the new one, and the item at the slot, if any, is earlier.
pub proof fn lemma_slot_for<T>(sorted: Seq<(Timestamp, T)>, at: Timestamp)
    ensures
        0 <= slot_for(sorted, at) <= sorted.len(),
        forall|k: int| 0 <= k < slot_for(sorted, at) ==> (#[trigger] sorted[k]).0.at_or_after(at),
        slot_for(sorted, at) < sorted.len() ==> sorted[slot_for(sorted, at)].0.before(at),
    decreases sorted.len(),
{
    if sorted.len() == 0 || sorted[0].0.before(at) {
    } else {
        let rest = sorted.drop_first();
        lemma_slot_for(rest, at);
        assert forall|k: int| 0 <= k < slot_for(sorted, at) implies (#[trigger] sorted[k]).0.at_or_after(
            at,
        ) by {
            if k > 0 {
                assert(sorted[k] == rest[k - 1]);
            }
        }
        if slot_for(sorted, at) < sorted.len() {
            assert(sorted[slot_for(sorted, at)] == rest[slot_for(rest, at)]);
        }
    }
}

/// A position that has only items not earlier than `at` before it, and an
/// earlier item or the end of the list at it, is the slot for `at`.
pub proof fn lemma_slot_found<T>(sorted: Seq<(Timestamp, T)>, at: Timestamp, slot: int)
    requires
        0 <= slot <= sorted.len(),
        forall|k: int| 0 <= k < slot ==> (#[trigger] sorted[k]).0.at_or_after(at),
        slot == sorted.len() || sorted[slot].0.before(at),
    ensures
        slot_for(sorted, at) == slot,
    decreases slot,
{
    if slot > 0 {
        let rest = sorted.drop_first();
        assert(sorted[0].0.at_or_after(at));
        assert forall|k: int| 0 <= k < slot - 1 implies (#[trigger] rest[k]).0.at_or_after(at) by {
            assert(rest[k] == sorted[k + 1]);
        }
        lemma_slot_found(rest, at, slot - 1);
    }
}

/// Putting items newest first gives a list in which no item is followed by a more
/// recent one, and which holds exactly the items it was given.
pub proof fn lemma_newest_first<T>(entries: Seq<(Timestamp, T)>)
    ensures
        is_newest_first(newest_first(entries)),
        newest_first(entries).len() == entries.len(),
        newest_first(entries).to_multiset() == entries.to_multiset(),
    decreases entries.len(),
{
    broadcast use vstd::seq_lib::to_multiset_insert, vstd::seq_lib::to_multiset_build;

    if entries.len() > 0 {
        let front = entries.drop_last();
        let rest = newest_first(front);
        let e = entries.last();
        let slot = slot_for(rest, e.0);
        let out = rest.insert(slot, e);
        lemma_newest_first(front);
        lemma_slot_for(rest, e.0);
        rest.insert_ensures(slot, e);
        assert forall|i: int, j: int| 0 <= i <= j < out.len() implies (#[trigger] out[i]).0.at_or_after(
            (#[trigger] out[j]).0,
        ) by {
            if i < slot {
                assert(out[i] == rest[i]);
            } else if i > slot {
                assert(out[i] == rest[i - 1]);
            }
            if j < slot {
                assert(out[j] == rest[j]);
            } else if j > slot {
                assert(out[j] == rest[j - 1]);
                assert(rest[slot].0.at_or_after(rest[j - 1].0));
            }
        }
        assert(entries == front.push(e));
    }
}

/// Items published at the same moment keep the order they came in: the
/// items of any one moment are the same list before and after.
pub proof fn lemma_newest_first_keeps_ties<T>(entries: Seq<(Timestamp, T)>, moment: Timestamp)
    ensures
        newest_first(entries).filter(|e: (Timestamp, T)| e.0 == moment) == entries.filter(
            |e: (Timestamp, T)| e.0 == moment,
        ),
    decreases entries.len(),
{
    let of_moment = |e: (Timestamp, T)| e.0 == moment;
    if entries.len() > 0 {
        let front = entries.drop_last();
        let rest = newest_first(front);
        let e = entries.last();
        let slot = slot_for(rest, e.0);
        lemma_newest_first_keeps_ties(front, moment);
        lemma_newest_first(front);
        lemma_slot_for(rest, e.0);
        let head = rest.take(slot);
        let tail = rest.skip(slot);
        let one = seq![e];
        assert(rest =~= head + tail);
        assert(rest.insert(slot, e) =~= head + one + tail);
        Seq::filter_distributes_over_add(head, tail, of_moment);
        Seq::filter_distributes_over_add(head + one, tail, of_moment);
        Seq::filter_distributes_over_add(head, one, of_moment);
        assert(entries =~= front.push(e));
        front.lemma_filter_push(e, of_moment);
        Seq::<(Timestamp, T)>::empty().lemma_filter_push(e, of_moment);
        assert(Seq::<(Timestamp, T)>::empty().push(e) =~= one);
        crate::text::lemma_none_kept(Seq::<(Timestamp, T)>::empty(), of_moment);
        if e.0 == moment {
            assert forall|k: int| 0 <= k < tail.len() implies !of_moment(#[trigger] tail[k]) by {
                assert(tail[k] == rest[slot + k]);
                assert(rest[slot].0.at_or_after(rest[slot + k].0));
            }
            crate::text::lemma_none_kept(tail, of_moment);
            assert(one.filter(of_moment) =~= one);
            assert(head.filter(of_moment) + one + tail.filter(of_moment) =~= (head.filter(
                of_moment,
            ) + tail.filter(of_moment)).push(e));
        } else {
            assert(one.filter(of_moment) =~= Seq::<(Timestamp, T)>::empty());
            assert(head.filter(of_moment) + one.filter(of_moment) + tail.filter(of_moment)
                =~= head.filter(of_moment) + tail.filter(of_moment));
        }
    }
}

/// A list that is newest first already stays as it is.
pub proof fn lemma_newest_first_fixed<T>(entries: Seq<(Timestamp, T)>)
    requires
        is_newest_first(entries),
    ensures
        newest_first(entries) == entries,
    decreases entries.len(),
{
    if entries.len() > 0 {
        let front = entries.drop_last();
        assert forall|i: int, j: int| 0 <= i <= j < front.len() implies (#[trigger] front[i]).0.at_or_after(
            (#[trigger] front[j]).0,
        ) by {
            assert(front[i] == entries[i] && front[j] == entries[j]);
        }
        lemma_newest_first_fixed(front);
        assert forall|k: int| 0 <= k < front.len() implies (#[trigger] front[k]).0.at_or_after(
            entries.last().0,
        ) by {
            assert(front[k] == entries[k]);
            assert(entries[k].0.at_or_after(entries[entries.len() - 1].0));
        }
        lemma_slot_found(front, entries.last().0, front.len() as int);
        assert(front.insert(front.len() as int, entries.last()) =~= entries);
    }
}

/// Orders `entries` from the most recent to the least recent.
pub fn sort_recent(entries: Vec<(Timestamp, String)>) -> (sorted: Vec<(Timestamp, String)>)
    ensures
        entry_views(sorted@) == newest_first(entry_views(entries@)),
        is_newest_first(entry_views(sorted@)),
        sorted@.len() == entries@.len(),
{
    let mut sorted: Vec<(Timestamp, String)> = Vec::new();
    let mut i: usize = 0;
    proof {
        assert(entry_views(entries@).take(0) =~= Seq::empty());
        assert(entry_views(sorted@) =~= Seq::empty());
    }
    while i < entries.len()
        invariant
            i <= entries.len(),
            entry_views(sorted@) == newest_first(entry_views(entries@).take(i as int)),
        decreases entries.len() - i,
    {
        let at: Timestamp = entries[i].0;
        let url: String = entries[i].1.clone();
        let mut slot: usize = 0;
        while slot < sorted.len() && sorted[slot].0.is_at_or_after(&at)
            invariant
                slot <= sorted.len(),
                forall|k: int| 0 <= k < slot ==> (#[trigger] entry_views(sorted@)[k]).0.at_or_after(at),
            decreases sorted.len() - slot,
        {
            slot += 1;
        }
        proof {
            let before = entry_views(sorted@);
            let seen = entry_views(entries@).take(i as int);
            let next = entry_views(entries@).take(i + 1);
            lemma_slot_found(before, at, slot as int);
            assert(next.drop_last() =~= seen);
            assert(next.last() == (at, url@));
            assert(entry_views(sorted@.insert(slot as int, (at, url))) =~= before.insert(
                slot as int,
                (at, url@),
            ));
        }
        sorted.insert(slot, (at, url));
        i += 1;
    }
    proof {
        assert(entry_views(entries@).take(i as int) =~= entry_views(entries@));
        lemma_newest_first(entry_views(entries@));
    }
    sorted
}

/// The URLs of the first `n` items of `entries`, or of all of them where
/// there are fewer.
pub fn first_urls(entries: &Vec<(Timestamp, String)>, n: u8) -> (urls: Vec<String>)
    ensures
        texts(urls@) == urls_of(first_n(entry_views(entries@), n as nat)),
        urls@.len() == if n <= entries@.len() { n as nat } else { entries@.len() },
{
    let mut urls: Vec<String> = Vec::new();
    let mut i: usize = 0;
    let ghost wanted = first_n(entry_views(entries@), n as nat);
    while i < entries.len() && i < n as usize
        invariant
            i <= entries.len(),
            i <= n,
            wanted == first_n(entry_views(entries@), n as nat),
            urls@.len() == i,
            texts(urls@) == urls_of(wanted).take(i as int),
        decreases entries.len() - i,
    {
        urls.push(entries[i].1.clone());
        proof {
            assert(texts(urls@) =~= urls_of(wanted).take(i + 1));
        }
        i += 1;
    }
    proof {
        assert(urls_of(wanted).take(i as int) =~= urls_of(wanted));
    }
    urls
}

/// The URLs of the items of `entries` published at `as_of` or later, in the
/// order of `entries`.
pub fn urls_since(entries: &Vec<(Timestamp, String)>, as_of: Timestamp) -> (urls: Vec<String>)
    ensures
        texts(urls@) == urls_of(published_since(entry_views(entries@), as_of)),
{
    let mut urls: Vec<String> = Vec::new();
    let mut i: usize = 0;
    let ghost all = entry_views(entries@);
    let ghost wanted = |e: (Timestamp, Seq<char>)| e.0.at_or_after(as_of);
    proof {
        assert(all.take(0) =~= Seq::empty());
        assert(texts(urls@) =~= urls_of(all.take(0).filter(wanted)));
    }
    while i < entries.len()
        invariant
            i <= entries.len(),
            all == entry_views(entries@),
            wanted == |e: (Timestamp, Seq<char>)| e.0.at_or_after(as_of),
            texts(urls@) == urls_of(all.take(i as int).filter(wanted)),
        decreases entries.len() - i,
    {
        let ghost kept = all.take(i as int).filter(wanted);
        proof {
            all.take(i as int).lemma_filter_push(all[i as int], wanted);
            assert(all.take(i + 1) =~= all.take(i as int).push(all[i as int]));
        }
        if entries[i].0.is_at_or_after(&as_of) {
            urls.push(entries[i].1.clone());
            proof {
                assert(all.take(i + 1).filter(wanted) == kept.push(all[i as int]));
                assert(urls_of(kept.push(all[i as int])) =~= urls_of(kept).push(all[i as int].1));
                assert(texts(urls@) =~= urls_of(kept).push(all[i as int].1));
            }
        }
        i += 1;
    }
    proof {
        assert(all.take(i as int) =~= all);
    }
    urls
}


/// Item `i` is the first captured item whose publication time is no
/// date-time.
pub open spec fn is_first_undated(
    captures: Seq<(Option<Seq<char>>, Option<Seq<char>>)>,
    i: int,
) -> bool {
    &&& 0 <= i < captures.len()
    &&& published(captures[i]).is_none()
    &&& forall|j: int| 0 <= j < i ==> (#[trigger] published(captures[j])).is_some()
}

/// Every item at or after `as_of` comes before every earlier one in a list
/// that is newest first, so the items since `as_of` are the first ones of the
/// list.
pub proof fn lemma_since_is_prefix(entries: Seq<(Timestamp, Seq<char>)>, as_of: Timestamp)
    requires
        is_newest_first(entries),
    ensures
        published_since(entries, as_of) == entries.take(
            published_since(entries, as_of).len() as int,
        ),
        published_since(entries, as_of).len() <= entries.len(),
    decreases entries.len(),
{
    let wanted = |e: (Timestamp, Seq<char>)| e.0.at_or_after(as_of);
    reveal(Seq::filter);
    if entries.len() > 0 {
        let front = entries.drop_last();
        assert forall|i: int, j: int| 0 <= i <= j < front.len() implies (#[trigger] front[i]).0.at_or_after(
            (#[trigger] front[j]).0,
        ) by {
            assert(front[i] == entries[i] && front[j] == entries[j]);
        }
        lemma_since_is_prefix(front, as_of);
        let kept = front.filter(wanted);
        assert(kept == published_since(front, as_of));
        if wanted(entries.last()) {
            assert forall|k: int| 0 <= k < front.len() implies wanted(#[trigger] front[k]) by {
                assert(front[k] == entries[k]);
                assert(entries[k].0.at_or_after(entries[entries.len() - 1].0));
            }
            lemma_since_of_all(front, as_of);
            assert(kept.push(entries.last()) =~= entries);
            assert(entries.take(entries.len() as int) =~= entries);
        } else {
            assert(front.take(kept.len() as int) =~= entries.take(kept.len() as int));
        }
    } else {
        assert(entries.take(0) =~= entries);
    }
}

/// Asking for the items since a moment that none of them is earlier than
/// gives all of them.
pub proof fn lemma_since_of_all(entries: Seq<(Timestamp, Seq<char>)>, as_of: Timestamp)
    requires
        forall|i: int| 0 <= i < entries.len() ==> (#[trigger] entries[i]).0.at_or_after(as_of),
    ensures
        published_since(entries, as_of) == entries,
    decreases entries.len(),
{
    reveal(Seq::filter);
    if entries.len() > 0 {
        let front = entries.drop_last();
        assert forall|i: int| 0 <= i < front.len() implies (#[trigger] front[i]).0.at_or_after(
            as_of,
        ) by {
            assert(front[i] == entries[i]);
        }
        lemma_since_of_all(front, as_of);
        assert(entries.last() == entries[entries.len() - 1]);
        assert(front.push(entries.last()) =~= entries);
    }
}

/// Asking for the items since a moment later than all of them gives none.
pub proof fn lemma_since_of_none(entries: Seq<(Timestamp, Seq<char>)>, as_of: Timestamp)
    requires
        forall|i: int| 0 <= i < entries.len() ==> (#[trigger] entries[i]).0.before(as_of),
    ensures
        published_since(entries, as_of) == Seq::<(Timestamp, Seq<char>)>::empty(),
    decreases entries.len(),
{
    reveal(Seq::filter);
    if entries.len() > 0 {
        let front = entries.drop_last();
        assert forall|i: int| 0 <= i < front.len() implies (#[trigger] front[i]).0.before(as_of) by {
            assert(front[i] == entries[i]);
        }
        lemma_since_of_none(front, as_of);
        assert(entries.last() == entries[entries.len() - 1]);
    }
}

/// The most recent item of a list that is newest first is at its head and
/// the least recent at its end: asking for the items since a moment past the
/// head's gives none, and since the end's gives all.
pub proof fn lemma_since_bounds(
    entries: Seq<(Timestamp, Seq<char>)>,
    past_newest: Timestamp,
    oldest: Timestamp,
)
    requires
        is_newest_first(entries),
        entries.len() > 0,
        entries[0].0.before(past_newest),
        oldest == entries.last().0,
    ensures
        published_since(entries, past_newest).len() == 0,
        published_since(entries, oldest) == entries,
{
    assert forall|i: int| 0 <= i < entries.len() implies (#[trigger] entries[i]).0.before(
        past_newest,
    ) by {
        assert(entries[0].0.at_or_after(entries[i].0));
    }
    lemma_since_of_none(entries, past_newest);
    assert forall|i: int| 0 <= i < entries.len() implies (#[trigger] entries[i]).0.at_or_after(
        oldest,
    ) by {
        assert(entries[i].0.at_or_after(entries[entries.len() - 1].0));
    }
    lemma_since_of_all(entries, oldest);
}

/// Gives each captured item its publication time and orders the items newest
/// first. One publication time that is no date-time fails the whole call.
pub fn recent_from_captures(captures: &Vec<(Option<String>, Option<String>)>) -> (r: Result<
    Vec<(Timestamp, String)>,
    FeedError,
>)
    ensures
        match r {
            Ok(entries) => {
                &&& recent_of(capture_views(captures@)) == Some(entry_views(entries@))
                &&& is_newest_first(entry_views(entries@))
                &&& entries@.len() == captures@.len()
            },
            Err(FeedError::Date(text)) => {
                &&& recent_of(capture_views(captures@)).is_none()
                &&& exists|i: int|
                    #![trigger capture_views(captures@)[i]]
                    is_first_undated(capture_views(captures@), i) && text@ == group_text(
                        capture_views(captures@)[i].1,
                    )
            },
            Err(FeedError::Pattern) => false,
        },
{
    let ghost found = capture_views(captures@);
    let mut dated: Vec<(Timestamp, String)> = Vec::new();
    let mut i: usize = 0;
    proof {
        reveal_strlit("");
        assert(stamped(found.take(0)) =~= Seq::empty());
        assert(entry_views(dated@) =~= Seq::empty());
    }
    while i < captures.len()
        invariant
            i <= captures.len(),
            found == capture_views(captures@),
            ""@.len() == 0,
            forall|j: int| 0 <= j < i ==> (#[trigger] published(found[j])).is_some(),
            entry_views(dated@) == stamped(found.take(i as int)),
        decreases captures.len() - i,
    {
        let date: &str = match &captures[i].1 {
            Some(text) => text.as_str(),
            None => "",
        };
        let url: String = match &captures[i].0 {
            Some(text) => text.clone(),
            None => String::new(),
        };
        proof {
            assert(date@ =~= group_text(found[i as int].1));
            assert(url@ =~= group_text(found[i as int].0));
        }
        match parse_relaxed(date) {
            Ok(at) => {
                dated.push((at, url));
                proof {
                    assert(found.take(i + 1) =~= found.take(i as int).push(found[i as int]));
                    assert(published(found[i as int]) == Some(at));
                    assert(stamped(found.take(i + 1)) =~= stamped(found.take(i as int)).push(
                        (at, url@),
                    ));
                    assert(entry_views(dated@) =~= stamped(found.take(i + 1)));
                }
            },
            Err(_) => {
                proof {
                    assert(is_first_undated(found, i as int));
                }
                return Err(FeedError::Date(date.to_owned()));
            },
        }
        i += 1;
    }
    proof {
        assert(found.take(i as int) =~= found);
        assert(all_dated(found));
    }
    Ok(sort_recent(dated))
}

/// The items of a feed as pairs of publication time and URL, from the most
/// recent to the least recent. One item whose publication time is no
/// date-time fails the whole call.
pub fn parse_recent(feed_text: &str) -> (r: Result<Vec<(Timestamp, String)>, FeedError>)
    ensures
        match r {
            Ok(entries) => {
                &&& feed_outcome(feed_text@) == Ok::<Seq<(Timestamp, Seq<char>)>, FeedFault>(
                    entry_views(entries@),
                )
                &&& pattern_accepted(ENTRY_PATTERN@)
                &&& recent_entries(feed_text@) == Some(entry_views(entries@))
                &&& is_newest_first(entry_views(entries@))
                &&& entries@.len() == regex_captures(ENTRY_PATTERN@, feed_text@).len()
            },
            Err(FeedError::Date(text)) => {
                &&& pattern_accepted(ENTRY_PATTERN@)
                &&& recent_entries(feed_text@).is_none()
                &&& exists|i: int|
                    #![trigger regex_captures(ENTRY_PATTERN@, feed_text@)[i]]
                    is_first_undated(regex_captures(ENTRY_PATTERN@, feed_text@), i) && text@
                        == group_text(regex_captures(ENTRY_PATTERN@, feed_text@)[i].1)
            },
            Err(FeedError::Pattern) => !pattern_accepted(ENTRY_PATTERN@),
        },
{
    match capture_pairs(ENTRY_PATTERN, feed_text) {
        Ok(captures) => {
            proof {
                assert(capture_views(captures@).len() == captures@.len());
            }
            recent_from_captures(&captures)
        },
        Err(_) => Err(FeedError::Pattern),
    }
}

/// The URLs of the `n` most recent items of a feed, most recent first; all
/// of them where the feed holds fewer.
pub fn top_n(feed_text: &str, n: u8) -> (r: Result<Vec<String>, FeedError>)
    ensures
        match r {
            Ok(urls) => {
                &&& pattern_accepted(ENTRY_PATTERN@)
                &&& recent_entries(feed_text@) matches Some(entries)
                &&& texts(urls@) == urls_of(first_n(entries, n as nat))
                &&& urls@.len() == if n <= entries.len() {
                    n as nat
                } else {
                    entries.len()
                }
            },
            Err(e) => feed_outcome(feed_text@) == Err::<Seq<(Timestamp, Seq<char>)>, FeedFault>(
                e.fault(),
            ),
        },
{
    match parse_recent(feed_text) {
        Ok(entries) => {
            proof {
                assert(entry_views(entries@).len() == entries@.len());
            }
            Ok(first_urls(&entries, n))
        },
        Err(e) => Err(e),
    }
}

/// The URLs of the items of a feed published at `as_of` or later, most
/// recent first.
pub fn since(feed_text: &str, as_of: Timestamp) -> (r: Result<Vec<String>, FeedError>)
    ensures
        match r {
            Ok(urls) => {
                &&& pattern_accepted(ENTRY_PATTERN@)
                &&& recent_entries(feed_text@) matches Some(entries)
                &&& texts(urls@) == urls_of(published_since(entries, as_of))
            },
            Err(e) => feed_outcome(feed_text@) == Err::<Seq<(Timestamp, Seq<char>)>, FeedFault>(
                e.fault(),
            ),
        },
{
    match parse_recent(feed_text) {
        Ok(entries) => Ok(urls_since(&entries, as_of)),
        Err(e) => Err(e),
    }
}


/// Whether the matcher takes the pattern of an item record. A caller that
/// asks once, before it reads any feed, learns at the start what every
/// reading would fail of.
pub fn check_entry_pattern() -> (r: Result<(), FeedError>)
    ensures
        match r {
            Ok(_) => pattern_accepted(ENTRY_PATTERN@),
            Err(e) => e == FeedError::Pattern && !pattern_accepted(ENTRY_PATTERN@),
        },
{
    match capture_pairs(ENTRY_PATTERN, "") {
        Ok(_) => Ok(()),
        Err(_) => Err(FeedError::Pattern),
    }
}

} // verus!
