//! The tail of the application's log: which buffered entries are new since
//! the last look, and how each of them is drawn.
//!
//! The console remembers the time of the entry it drew last, the high-water
//! mark. On every look at the buffer it takes the entries that are later
//! than the mark, draws them in order of time, entries of one instant in
//! buffer order, and moves the mark to the last one drawn.

use vstd::prelude::*;
use crate::change::{push_change, Change, ChangeView, Intensity};
use crate::level::{color_of, name_of, Level};
use crate::text::{terminal_lines, to_terminal_lines};
use crate::timestamp::{at_or_before, clock_text, Timestamp, TimestampView};

verus! {

broadcast use vstd::string::group_string_axioms;

/// One record of the application's log.
#[derive(Clone, Debug, PartialEq, Eq)]
pub struct LogEntry {
    /// When the entry was recorded.
    pub when: Timestamp,
    /// How severe it is.
    pub level: Level,
    /// The part of the application that it comes from.
    pub target: String,
    /// What it says.
    pub msg: String,
}

/// A [`LogEntry`] with its strings as sequences of characters.
pub struct LogEntryView {
    pub when: TimestampView,
    pub level: Level,
    pub target: Seq<char>,
    pub msg: Seq<char>,
}

impl View for LogEntry {
    type V = LogEntryView;

    open spec fn view(&self) -> LogEntryView {
        LogEntryView { when: self.when@, level: self.level, target: self.target@, msg: self.msg@ }
    }
}

impl DeepView for LogEntry {
    type V = LogEntryView;

    open spec fn deep_view(&self) -> LogEntryView {
        self@
    }
}

/// Whether an entry recorded at `when` is new to a console whose high-water
/// mark is `latest`: it is, unless the mark is set and `when` is no later.
pub open spec fn is_new(when: TimestampView, latest: Option<TimestampView>) -> bool {
    match latest {
        Some(seen) => !at_or_before(when, seen),
        None => true,
    }
}

/// The test that tells the entries that are new to a console whose mark is
/// `latest`.
pub open spec fn newer_than(latest: Option<TimestampView>) -> spec_fn(LogEntryView) -> bool {
    |entry: LogEntryView| is_new(entry.when, latest)
}

/// The entries of the buffer that are later than the mark, in buffer order.
pub open spec fn pending(entries: Seq<LogEntryView>, latest: Option<TimestampView>) -> Seq<
    LogEntryView,
> {
    entries.filter(newer_than(latest))
}

/// Whether the entries stand in order of time: none is later than one
/// behind it.
pub open spec fn sorted_by_time(entries: Seq<LogEntryView>) -> bool {
    forall|i: int, j: int|
        #![trigger entries[i], entries[j]]
        0 <= i < j < entries.len() ==> at_or_before(entries[i].when, entries[j].when)
}

/// Where an entry recorded at `when` goes into `sorted`: behind every entry
/// but those at the end that are later than it.
pub open spec fn place(sorted: Seq<LogEntryView>, when: TimestampView) -> int
    decreases sorted.len(),
{
    if sorted.len() == 0 || at_or_before(sorted.last().when, when) {
        sorted.len() as int
    } else {
        place(sorted.drop_last(), when)
    }
}

/// `sorted` with `entry` put in at its [`place`].
pub open spec fn insert_by_time(sorted: Seq<LogEntryView>, entry: LogEntryView) -> Seq<
    LogEntryView,
> {
    sorted.insert(place(sorted, entry.when), entry)
}

/// The entries in order of time, entries of one instant in the order in
/// which they stand: each entry in turn is put behind those that are not
/// later than it.
pub open spec fn in_time_order(entries: Seq<LogEntryView>) -> Seq<LogEntryView>
    decreases entries.len(),
{
    if entries.len() == 0 {
        Seq::empty()
    } else {
        insert_by_time(in_time_order(entries.drop_last()), entries.last())
    }
}

/// The entries that a look at `entries` draws when it begins with the mark at
/// `latest`: those later than the mark, in order of time.
pub open spec fn new_entries(
    entries: Seq<LogEntryView>,
    latest: Option<TimestampView>,
) -> Seq<LogEntryView> {
    in_time_order(pending(entries, latest))
}

/// The high-water mark after a look at `entries` that began with the mark at
/// `latest`: the time of the last entry drawn, or `latest` where none was.
pub open spec fn high_water(
    entries: Seq<LogEntryView>,
    latest: Option<TimestampView>,
) -> Option<TimestampView> {
    let shown = new_entries(entries, latest);
    if shown.len() == 0 {
        latest
    } else {
        Some(shown.last().when)
    }
}

/// The entries of `all` at the places that `order` names, in that order.
pub open spec fn picked(all: Seq<LogEntryView>, order: Seq<usize>) -> Seq<LogEntryView> {
    Seq::new(order.len(), |k: int| all[order[k] as int])
}

/// How one entry is drawn: the time of day in plain text, the severity in
/// its colour, the source in bold after a space, ` > `, the message with
/// terminal line endings, and the end of the line.
pub open spec fn entry_changes(entry: LogEntryView) -> Seq<ChangeView> {
    seq![
        ChangeView::ResetAttributes,
        ChangeView::Text(clock_text(entry.when.secs, entry.when.nanos, entry.when.utc_offset)),
        ChangeView::Foreground(color_of(entry.level)),
        ChangeView::Text(name_of(entry.level)),
        ChangeView::ResetAttributes,
        ChangeView::Intensity(Intensity::Bold),
        ChangeView::Text(seq![' '] + entry.target),
        ChangeView::ResetAttributes,
        ChangeView::Text(seq![' ', '>', ' '] + terminal_lines(entry.msg) + seq!['\r', '\n']),
    ]
}

/// How a run of entries is drawn: each in turn.
pub open spec fn rendered(entries: Seq<LogEntryView>) -> Seq<ChangeView>
    decreases entries.len(),
{
    if entries.len() == 0 {
        Seq::empty()
    } else {
        rendered(entries.drop_last()) + entry_changes(entries.last())
    }
}

/// Appends the changes that draw `entry`.
fn push_entry(changes: &mut Vec<Change>, entry: &LogEntry)
    ensures
        final(changes).deep_view() == old(changes).deep_view() + entry_changes(entry@),
{
    push_change(changes, Change::ResetAttributes);
    push_change(changes, Change::Text(entry.when.clock()));
    push_change(changes, Change::Foreground(entry.level.color()));
    push_change(changes, Change::Text(entry.level.name()));
    push_change(changes, Change::ResetAttributes);
    push_change(changes, Change::Intensity(Intensity::Bold));

    let mut target = " ".to_owned();
    target.append(entry.target.as_str());
    push_change(changes, Change::Text(target));
    push_change(changes, Change::ResetAttributes);

    let mut line = " > ".to_owned();
    let msg = to_terminal_lines(entry.msg.as_str());
    line.append(msg.as_str());
    line.append("\r\n");
    push_change(changes, Change::Text(line));

    proof {
        reveal_strlit(" ");
        reveal_strlit(" > ");
        reveal_strlit("\r\n");
        assert(" "@ =~= seq![' ']);
        assert(" > "@ =~= seq![' ', '>', ' ']);
        assert("\r\n"@ =~= seq!['\r', '\n']);
        assert(changes.deep_view() =~= old(changes).deep_view() + entry_changes(entry@));
    }
}

/// The changes that draw one log entry.
pub fn log_entry_changes(entry: &LogEntry) -> (changes: Vec<Change>)
    ensures
        changes.deep_view() == entry_changes(entry@),
{
    let mut changes: Vec<Change> = Vec::new();
    assert(changes.deep_view() =~= Seq::<ChangeView>::empty());
    push_entry(&mut changes, entry);
    assert(changes.deep_view() =~= entry_changes(entry@));
    changes
}

/// The places in the buffer of the entries that are later than the mark, in
/// the order in which they are drawn.
fn new_in_time_order(entries: &Vec<LogEntry>, latest: &Option<Timestamp>) -> (order: Vec<usize>)
    ensures
        forall|k: int| 0 <= k < order.len() ==> (#[trigger] order[k]) < entries.len(),
        picked(entries.deep_view(), order@) == new_entries(
            entries.deep_view(),
            latest.deep_view(),
        ),
{
    let ghost all = entries.deep_view();
    let ghost start = latest.deep_view();
    let mut order: Vec<usize> = Vec::new();
    proof {
        reveal(Seq::filter);
        assert(all.take(0) =~= Seq::<LogEntryView>::empty());
        assert(picked(all, order@) =~= Seq::<LogEntryView>::empty());
    }
    let mut i: usize = 0;
    while i < entries.len()
        invariant
            0 <= i <= entries.len(),
            all == entries.deep_view(),
            all.len() == entries.len(),
            start == latest.deep_view(),
            forall|k: int| 0 <= k < order.len() ==> (#[trigger] order[k]) < i,
            picked(all, order@) == new_entries(all.take(i as int), start),
        decreases entries.len() - i,
    {
        let entry = &entries[i];
        let seen = match latest {
            Some(mark) => entry.when.at_or_before(mark),
            None => false,
        };
        proof {
            assert(all.take(i as int + 1) =~= all.take(i as int).push(entry@));
            lemma_pending_push(all.take(i as int), entry@, start);
            assert(seen == !is_new(entry@.when, start));
        }
        if !seen {
            let ghost sorted = picked(all, order@);
            let mut p: usize = order.len();
            assert(sorted.take(p as int) =~= sorted);
            while p > 0 && !entries[order[p - 1]].when.at_or_before(&entry.when)
                invariant
                    0 <= p <= order.len(),
                    i < entries.len(),
                    all == entries.deep_view(),
                    all.len() == entries.len(),
                    entry@ == all[i as int],
                    forall|k: int| 0 <= k < order.len() ==> (#[trigger] order[k]) < i,
                    sorted == picked(all, order@),
                    place(sorted, entry@.when) == place(sorted.take(p as int), entry@.when),
                decreases p,
            {
                proof {
                    let upto = sorted.take(p as int);
                    assert(upto.last() == all[order[p - 1] as int]);
                    assert(upto.drop_last() =~= sorted.take(p - 1));
                }
                p -= 1;
            }
            proof {
                let upto = sorted.take(p as int);
                if p > 0 {
                    assert(upto.last() == all[order[p - 1] as int]);
                }
                assert(place(sorted, entry@.when) == p);
                let shown = pending(all.take(i as int), start);
                assert(shown.push(entry@).drop_last() =~= shown);
            }
            order.insert(p, i);
            proof {
                assert(picked(all, order@) =~= sorted.insert(p as int, entry@));
            }
        }
        i += 1;
    }
    proof {
        assert(all.take(i as int) =~= all);
    }
    order
}

/// Looks at the buffered log entries and returns the changes that draw the
/// new ones: the entries later than the mark as it stands, in order of time,
/// entries of one instant in buffer order. The high-water mark moves to the
/// last entry drawn, and stays where it is when none is new.
pub fn print_new_log_entries(entries: &Vec<LogEntry>, latest: &mut Option<Timestamp>) -> (changes:
    Vec<Change>)
    ensures
        changes.deep_view() == rendered(
            new_entries(entries.deep_view(), old(latest).deep_view()),
        ),
        final(latest).deep_view() == high_water(entries.deep_view(), old(latest).deep_view()),
{
    let order = new_in_time_order(entries, latest);
    let ghost all = entries.deep_view();
    let ghost shown = new_entries(all, old(latest).deep_view());
    let mut changes: Vec<Change> = Vec::new();
    proof {
        assert(changes.deep_view() =~= Seq::<ChangeView>::empty());
        assert(shown.take(0) =~= Seq::<LogEntryView>::empty());
    }
    let mut k: usize = 0;
    while k < order.len()
        invariant
            0 <= k <= order.len(),
            all == entries.deep_view(),
            all.len() == entries.len(),
            forall|k: int| 0 <= k < order.len() ==> (#[trigger] order[k]) < entries.len(),
            shown == picked(all, order@),
            changes.deep_view() == rendered(shown.take(k as int)),
        decreases order.len() - k,
    {
        let entry = &entries[order[k]];
        proof {
            let upto = shown.take(k as int + 1);
            assert(upto.drop_last() =~= shown.take(k as int));
            assert(upto.last() == entry@);
        }
        push_entry(&mut changes, entry);
        k += 1;
    }
    proof {
        assert(shown.take(k as int) =~= shown);
    }
    if order.len() > 0 {
        let last = &entries[order[order.len() - 1]];
        assert(shown.last() == last@);
        *latest = Some(last.when);
    }
    changes
}

/// The high-water mark after a run of looks, one buffer content each, that
/// began with the mark at `latest`.
pub open spec fn run_high_water(
    polls: Seq<Seq<LogEntryView>>,
    latest: Option<TimestampView>,
) -> Option<TimestampView>
    decreases polls.len(),
{
    if polls.len() == 0 {
        latest
    } else {
        high_water(polls.last(), run_high_water(polls.drop_last(), latest))
    }
}

/// The entries that a run of looks draws, in the order in which they are
/// drawn.
pub open spec fn run_new_entries(
    polls: Seq<Seq<LogEntryView>>,
    latest: Option<TimestampView>,
) -> Seq<LogEntryView>
    decreases polls.len(),
{
    if polls.len() == 0 {
        Seq::empty()
    } else {
        run_new_entries(polls.drop_last(), latest) + new_entries(
            polls.last(),
            run_high_water(polls.drop_last(), latest),
        )
    }
}

/// The changes that a run of looks hands to the surface, look after look.
pub open spec fn run_changes(
    polls: Seq<Seq<LogEntryView>>,
    latest: Option<TimestampView>,
) -> Seq<ChangeView>
    decreases polls.len(),
{
    if polls.len() == 0 {
        Seq::empty()
    } else {
        run_changes(polls.drop_last(), latest) + rendered(
            new_entries(polls.last(), run_high_water(polls.drop_last(), latest)),
        )
    }
}

/// Whether `poll` holds the entries of `log` from `lo` up to `hi`.
pub open spec fn is_window(
    poll: Seq<LogEntryView>,
    log: Seq<LogEntryView>,
    lo: int,
    hi: int,
) -> bool {
    0 <= lo <= hi <= log.len() && poll == log.subrange(lo, hi)
}

/// Whether `polls` are looks at a buffer that slides along `log`: look `k`
/// sees the entries of `log` from `lo[k]` up to `hi[k]`; from one look to
/// the next the buffer may take new entries at its end and drop old ones at
/// its beginning, but drops none that no look has seen.
pub open spec fn sliding_windows(
    polls: Seq<Seq<LogEntryView>>,
    log: Seq<LogEntryView>,
    lo: Seq<int>,
    hi: Seq<int>,
) -> bool {
    &&& lo.len() == polls.len()
    &&& hi.len() == polls.len()
    &&& forall|k: int| 0 <= k < polls.len() ==> #[trigger] is_window(polls[k], log, lo[k], hi[k])
    &&& forall|k: int, m: int| 0 <= k <= m < polls.len() ==> #[trigger] lo[k] <= #[trigger] lo[m]
    &&& forall|k: int, m: int| 0 <= k <= m < polls.len() ==> #[trigger] hi[k] <= #[trigger] hi[m]
    &&& forall|k: int| 0 <= k < polls.len() - 1 ==> lo[k + 1] <= #[trigger] hi[k]
}

/// Whether everything that enters the buffer after a look is later than
/// everything that was in the log before: for each look, every entry of the
/// log from the end of that look on is later than every entry in front of
/// it.
pub open spec fn arrivals_later(log: Seq<LogEntryView>, hi: Seq<int>) -> bool {
    forall|k: int, i: int, j: int|
        #![trigger hi[k], log[i], log[j]]
        0 <= k < hi.len() && 0 <= i < hi[k] <= j < log.len() ==> !at_or_before(
            log[j].when,
            log[i].when,
        )
}

/// What the entries of one instant are: those of `entries` recorded at the
/// instant `when`, in the order in which they stand.
pub open spec fn at_instant(entries: Seq<LogEntryView>, when: TimestampView) -> Seq<LogEntryView>
    decreases entries.len(),
{
    if entries.len() == 0 {
        Seq::empty()
    } else {
        let front = at_instant(entries.drop_last(), when);
        if at_or_before(entries.last().when, when) && at_or_before(when, entries.last().when) {
            front.push(entries.last())
        } else {
            front
        }
    }
}

/// Taking one more entry into the buffer adds it to the pending ones where
/// it is later than the mark, and changes nothing where it is not.
pub proof fn lemma_pending_push(
    entries: Seq<LogEntryView>,
    entry: LogEntryView,
    latest: Option<TimestampView>,
)
    ensures
        pending(entries.push(entry), latest) == (if is_new(entry.when, latest) {
            pending(entries, latest).push(entry)
        } else {
            pending(entries, latest)
        }),
{
    reveal(Seq::filter);
    assert(entries.push(entry).drop_last() =~= entries);
}

/// In a buffer in which nothing is later than the mark, nothing is pending.
pub proof fn lemma_pending_none(entries: Seq<LogEntryView>, latest: Option<TimestampView>)
    requires
        forall|i: int| 0 <= i < entries.len() ==> !is_new(#[trigger] entries[i].when, latest),
    ensures
        pending(entries, latest) == Seq::<LogEntryView>::empty(),
    decreases entries.len(),
{
    reveal(Seq::filter);
    if entries.len() > 0 {
        let front = entries.drop_last();
        assert forall|i: int| 0 <= i < front.len() implies !is_new(
            #[trigger] front[i].when,
            latest,
        ) by {
            assert(front[i] == entries[i]);
        }
        lemma_pending_none(front, latest);
        assert(!is_new(entries[entries.len() - 1].when, latest));
    }
}

/// In a buffer in which everything is later than the mark, everything is
/// pending.
pub proof fn lemma_pending_all(entries: Seq<LogEntryView>, latest: Option<TimestampView>)
    requires
        forall|i: int| 0 <= i < entries.len() ==> is_new(#[trigger] entries[i].when, latest),
    ensures
        pending(entries, latest) == entries,
    decreases entries.len(),
{
    reveal(Seq::filter);
    if entries.len() > 0 {
        let front = entries.drop_last();
        assert forall|i: int| 0 <= i < front.len() implies is_new(
            #[trigger] front[i].when,
            latest,
        ) by {
            assert(front[i] == entries[i]);
        }
        lemma_pending_all(front, latest);
        assert(is_new(entries[entries.len() - 1].when, latest));
        assert(front.push(entries.last()) =~= entries);
    }
}

/// The place of an entry lies within the sequence; every entry from the
/// place on is later than the newcomer, and the entry in front of the place
/// is not.
pub proof fn lemma_place_splits(sorted: Seq<LogEntryView>, when: TimestampView)
    ensures
        0 <= place(sorted, when) <= sorted.len(),
        forall|k: int|
            place(sorted, when) <= k < sorted.len() ==> !at_or_before(
                #[trigger] sorted[k].when,
                when,
            ),
        place(sorted, when) > 0 ==> at_or_before(sorted[place(sorted, when) - 1].when, when),
    decreases sorted.len(),
{
    if !(sorted.len() == 0 || at_or_before(sorted.last().when, when)) {
        let front = sorted.drop_last();
        lemma_place_splits(front, when);
        assert forall|k: int| place(sorted, when) <= k < sorted.len() implies !at_or_before(
            #[trigger] sorted[k].when,
            when,
        ) by {
            if k < front.len() {
                assert(front[k] == sorted[k]);
            }
        }
        if place(sorted, when) > 0 {
            assert(front[place(sorted, when) - 1] == sorted[place(sorted, when) - 1]);
        }
    }
}

/// Putting an entry in at its place keeps a sequence in order of time, and
/// adds the entry to what the sequence holds and nothing else.
pub proof fn lemma_insert_by_time(sorted: Seq<LogEntryView>, entry: LogEntryView)
    requires
        sorted_by_time(sorted),
    ensures
        sorted_by_time(insert_by_time(sorted, entry)),
        insert_by_time(sorted, entry).len() == sorted.len() + 1,
        insert_by_time(sorted, entry).to_multiset() == sorted.to_multiset().insert(entry),
{
    let p = place(sorted, entry.when);
    let grown = insert_by_time(sorted, entry);
    lemma_place_splits(sorted, entry.when);
    vstd::seq_lib::to_multiset_insert(sorted, p, entry);
    assert forall|i: int, j: int| 0 <= i < j < grown.len() implies at_or_before(
        #[trigger] grown[i].when,
        #[trigger] grown[j].when,
    ) by {
        let a = if i < p {
            sorted[i]
        } else if i == p {
            entry
        } else {
            sorted[i - 1]
        };
        let b = if j < p {
            sorted[j]
        } else if j == p {
            entry
        } else {
            sorted[j - 1]
        };
        assert(grown[i] == a && grown[j] == b);
        if j == p {
            if i < p - 1 {
                assert(at_or_before(sorted[i].when, sorted[p - 1].when));
            }
        } else if j > p {
            assert(!at_or_before(sorted[j - 1].when, entry.when));
            if i < p {
                assert(at_or_before(sorted[i].when, sorted[j - 1].when));
            } else if i > p {
                assert(at_or_before(sorted[i - 1].when, sorted[j - 1].when));
            }
        } else {
            assert(at_or_before(sorted[i].when, sorted[j].when));
        }
    }
}

/// Putting entries in order of time gives a sequence that is in order of
/// time and holds exactly the same entries, each as often as before.
pub proof fn lemma_in_time_order(entries: Seq<LogEntryView>)
    ensures
        sorted_by_time(in_time_order(entries)),
        in_time_order(entries).len() == entries.len(),
        in_time_order(entries).to_multiset() == entries.to_multiset(),
    decreases entries.len(),
{
    if entries.len() > 0 {
        let front = entries.drop_last();
        lemma_in_time_order(front);
        lemma_insert_by_time(in_time_order(front), entries.last());
        vstd::seq_lib::to_multiset_build(front, entries.last());
        assert(front.push(entries.last()) =~= entries);
    } else {
        assert(in_time_order(entries) =~= entries);
    }
}

/// Every entry that stands in order of time stood in the sequence: for the
/// entry at place `k` there is a place where it came from.
pub proof fn lemma_entry_source(entries: Seq<LogEntryView>, k: int) -> (j: int)
    requires
        0 <= k < in_time_order(entries).len(),
    ensures
        0 <= j < entries.len(),
        entries[j] == in_time_order(entries)[k],
{
    let ordered = in_time_order(entries);
    lemma_in_time_order(entries);
    vstd::seq_lib::to_multiset_contains(ordered, ordered[k]);
    vstd::seq_lib::to_multiset_contains(entries, ordered[k]);
    assert(ordered.contains(ordered[k]));
    choose|j: int| 0 <= j < entries.len() && entries[j] == ordered[k]
}

/// Every entry of the sequence stands somewhere in its order of time, and
/// is no later than the last entry there.
pub proof fn lemma_entry_place(entries: Seq<LogEntryView>, j: int) -> (k: int)
    requires
        0 <= j < entries.len(),
    ensures
        0 <= k < in_time_order(entries).len(),
        in_time_order(entries)[k] == entries[j],
        at_or_before(entries[j].when, in_time_order(entries).last().when),
{
    let ordered = in_time_order(entries);
    lemma_in_time_order(entries);
    vstd::seq_lib::to_multiset_contains(ordered, entries[j]);
    vstd::seq_lib::to_multiset_contains(entries, entries[j]);
    assert(entries.contains(entries[j]));
    let k = choose|k: int| 0 <= k < ordered.len() && ordered[k] == entries[j];
    if k < ordered.len() - 1 {
        assert(at_or_before(ordered[k].when, ordered[ordered.len() - 1].when));
    }
    k
}

/// A sequence that stands in order of time already is its own order of
/// time: a buffer in order is drawn as it is.
pub proof fn lemma_sorted_stays(entries: Seq<LogEntryView>)
    requires
        sorted_by_time(entries),
    ensures
        in_time_order(entries) == entries,
    decreases entries.len(),
{
    if entries.len() > 0 {
        let front = entries.drop_last();
        assert(sorted_by_time(front)) by {
            assert forall|i: int, j: int| 0 <= i < j < front.len() implies at_or_before(
                #[trigger] front[i].when,
                #[trigger] front[j].when,
            ) by {
                assert(front[i] == entries[i] && front[j] == entries[j]);
            }
        }
        lemma_sorted_stays(front);
        if front.len() > 0 {
            assert(front.last() == entries[entries.len() - 2]);
            assert(at_or_before(entries[entries.len() - 2].when, entries[entries.len() - 1].when));
        }
        assert(place(front, entries.last().when) == front.len());
        assert(front.insert(front.len() as int, entries.last()) =~= entries);
    } else {
        assert(in_time_order(entries) =~= entries);
    }
}

/// Putting an entry in at its place leaves the entries of every instant in
/// the order in which they stood, the newcomer behind those of its own
/// instant.
pub proof fn lemma_insert_keeps_instants(
    sorted: Seq<LogEntryView>,
    entry: LogEntryView,
    when: TimestampView,
)
    ensures
        at_instant(insert_by_time(sorted, entry), when) == at_instant(sorted.push(entry), when),
    decreases sorted.len(),
{
    let p = place(sorted, entry.when);
    lemma_place_splits(sorted, entry.when);
    assert(sorted.push(entry).drop_last() =~= sorted);
    if sorted.len() == 0 || at_or_before(sorted.last().when, entry.when) {
        assert(sorted.insert(p, entry) =~= sorted.push(entry));
    } else {
        let front = sorted.drop_last();
        let last = sorted.last();
        let grown = insert_by_time(sorted, entry);
        let inner = insert_by_time(front, entry);
        lemma_insert_keeps_instants(front, entry, when);
        lemma_place_splits(front, entry.when);
        assert(grown =~= inner.push(last));
        assert(grown.drop_last() =~= inner);
        assert(grown.last() == last);
        assert(front.push(entry).drop_last() =~= front);
        assert(front.push(entry).last() == entry);
        let last_counts = at_or_before(last.when, when) && at_or_before(when, last.when);
        let entry_counts = at_or_before(entry.when, when) && at_or_before(when, entry.when);
        assert(!(last_counts && entry_counts));
        assert(at_instant(grown, when) == if last_counts {
            at_instant(inner, when).push(last)
        } else {
            at_instant(inner, when)
        });
        assert(at_instant(front.push(entry), when) == if entry_counts {
            at_instant(front, when).push(entry)
        } else {
            at_instant(front, when)
        });
        assert(at_instant(sorted, when) == if last_counts {
            at_instant(front, when).push(last)
        } else {
            at_instant(front, when)
        });
        assert(at_instant(sorted.push(entry), when) == if entry_counts {
            at_instant(sorted, when).push(entry)
        } else {
            at_instant(sorted, when)
        });
    }
}

/// Order of time is stable: the entries of one instant are drawn in the
/// order in which they stand in the buffer.
pub proof fn lemma_same_instant_keeps_order(entries: Seq<LogEntryView>, when: TimestampView)
    ensures
        at_instant(in_time_order(entries), when) == at_instant(entries, when),
    decreases entries.len(),
{
    if entries.len() > 0 {
        let front = entries.drop_last();
        let ordered = in_time_order(front);
        lemma_same_instant_keeps_order(front, when);
        lemma_insert_keeps_instants(ordered, entries.last(), when);
        assert(ordered.push(entries.last()).drop_last() =~= ordered);
    } else {
        assert(in_time_order(entries) =~= entries);
    }
}

/// What a look draws: exactly the entries later than the mark, each once,
/// in order of time, entries of one instant in buffer order.
pub proof fn lemma_new_entries(
    entries: Seq<LogEntryView>,
    latest: Option<TimestampView>,
    when: TimestampView,
)
    ensures
        new_entries(entries, latest).to_multiset() == pending(entries, latest).to_multiset(),
        new_entries(entries, latest).len() == pending(entries, latest).len(),
        sorted_by_time(new_entries(entries, latest)),
        at_instant(new_entries(entries, latest), when) == at_instant(
            pending(entries, latest),
            when,
        ),
{
    lemma_in_time_order(pending(entries, latest));
    lemma_same_instant_keeps_order(pending(entries, latest), when);
}

/// Every entry that a look draws is later than the mark with which the look
/// began.
pub proof fn lemma_new_entries_above_mark(
    entries: Seq<LogEntryView>,
    latest: Option<TimestampView>,
    k: int,
)
    requires
        0 <= k < new_entries(entries, latest).len(),
    ensures
        is_new(new_entries(entries, latest)[k].when, latest),
{
    let waiting = pending(entries, latest);
    let j = lemma_entry_source(waiting, k);
    entries.lemma_filter_pred(newer_than(latest), j);
}

/// The high-water mark never moves back: once set it stays set, and the
/// mark after a look is no earlier than the mark before it.
pub proof fn lemma_high_water_never_falls(
    entries: Seq<LogEntryView>,
    latest: Option<TimestampView>,
)
    ensures
        latest matches Some(before) ==> (high_water(entries, latest) matches Some(after)
            && at_or_before(before, after)),
{
    let shown = new_entries(entries, latest);
    if shown.len() > 0 {
        lemma_new_entries_above_mark(entries, latest, shown.len() - 1);
    }
}

/// After a look, the mark is set as soon as the buffer held an entry, and no
/// entry of the buffer is later than the mark.
pub proof fn lemma_no_entry_above_high_water(
    entries: Seq<LogEntryView>,
    latest: Option<TimestampView>,
    i: int,
)
    requires
        0 <= i < entries.len(),
    ensures
        high_water(entries, latest) matches Some(mark) && at_or_before(entries[i].when, mark),
{
    let waiting = pending(entries, latest);
    if is_new(entries[i].when, latest) {
        entries.lemma_filter_contains(newer_than(latest), i);
        let j = choose|j: int| 0 <= j < waiting.len() && waiting[j] == entries[i];
        let k = lemma_entry_place(waiting, j);
    } else {
        lemma_high_water_never_falls(entries, latest);
    }
}

/// Looking again at a buffer that has not changed draws nothing further and
/// leaves the mark where the first look put it.
pub proof fn lemma_second_look_draws_nothing(
    entries: Seq<LogEntryView>,
    latest: Option<TimestampView>,
)
    ensures
        new_entries(entries, high_water(entries, latest)) == Seq::<LogEntryView>::empty(),
        rendered(new_entries(entries, high_water(entries, latest))) == Seq::<ChangeView>::empty(),
        high_water(entries, high_water(entries, latest)) == high_water(entries, latest),
{
    let mark = high_water(entries, latest);
    assert forall|i: int| 0 <= i < entries.len() implies !is_new(
        #[trigger] entries[i].when,
        mark,
    ) by {
        lemma_no_entry_above_high_water(entries, latest, i);
    }
    lemma_pending_none(entries, mark);
}

/// What a look draws, it draws in order of time, whatever the order of the
/// buffer.
pub proof fn lemma_new_entries_in_time_order(
    entries: Seq<LogEntryView>,
    latest: Option<TimestampView>,
)
    ensures
        sorted_by_time(new_entries(entries, latest)),
{
    lemma_in_time_order(pending(entries, latest));
}

/// No entry that a run of looks draws is later than the mark that the run
/// leaves.
pub proof fn lemma_run_below_high_water(
    polls: Seq<Seq<LogEntryView>>,
    latest: Option<TimestampView>,
    k: int,
)
    requires
        0 <= k < run_new_entries(polls, latest).len(),
    ensures
        run_high_water(polls, latest) matches Some(mark) && at_or_before(
            run_new_entries(polls, latest)[k].when,
            mark,
        ),
    decreases polls.len(),
{
    if polls.len() > 0 {
        let earlier = polls.drop_last();
        let before = run_new_entries(earlier, latest);
        let mark = run_high_water(earlier, latest);
        let shown = new_entries(polls.last(), mark);
        if k < before.len() {
            lemma_run_below_high_water(earlier, latest, k);
            lemma_high_water_never_falls(polls.last(), mark);
        } else {
            lemma_new_entries_in_time_order(polls.last(), mark);
            if k - before.len() < shown.len() - 1 {
                assert(at_or_before(shown[k - before.len()].when, shown[shown.len() - 1].when));
            }
        }
    }
}

/// What a run of looks draws, it draws in order of time, whatever the
/// buffers held: no look draws an entry that is earlier than one drawn
/// before.
pub proof fn lemma_run_in_time_order(polls: Seq<Seq<LogEntryView>>, latest: Option<TimestampView>)
    ensures
        sorted_by_time(run_new_entries(polls, latest)),
    decreases polls.len(),
{
    if polls.len() > 0 {
        let earlier = polls.drop_last();
        let before = run_new_entries(earlier, latest);
        let mark = run_high_water(earlier, latest);
        let added = new_entries(polls.last(), mark);
        let drawn = run_new_entries(polls, latest);
        lemma_run_in_time_order(earlier, latest);
        lemma_new_entries_in_time_order(polls.last(), mark);
        assert forall|i: int, j: int| 0 <= i < j < drawn.len() implies at_or_before(
            #[trigger] drawn[i].when,
            #[trigger] drawn[j].when,
        ) by {
            if j < before.len() {
                assert(drawn[i] == before[i] && drawn[j] == before[j]);
            } else if i >= before.len() {
                assert(drawn[i] == added[i - before.len()] && drawn[j] == added[j - before.len()]);
            } else {
                assert(drawn[i] == before[i] && drawn[j] == added[j - before.len()]);
                lemma_run_below_high_water(earlier, latest, i);
                lemma_new_entries_above_mark(polls.last(), mark, j - before.len());
            }
        }
    }
}

/// Drawing one run of entries after another draws the two runs joined.
pub proof fn lemma_rendered_concat(a: Seq<LogEntryView>, b: Seq<LogEntryView>)
    ensures
        rendered(a + b) == rendered(a) + rendered(b),
    decreases b.len(),
{
    if b.len() == 0 {
        assert(a + b =~= a);
    } else {
        lemma_rendered_concat(a, b.drop_last());
        assert((a + b).drop_last() =~= a + b.drop_last());
        assert((a + b).last() == b.last());
    }
}

/// The place of an entry that is no earlier than all of `front` lies in
/// `front + back` where it lies in `back`, behind all of `front`.
pub proof fn lemma_place_behind(
    front: Seq<LogEntryView>,
    back: Seq<LogEntryView>,
    when: TimestampView,
)
    requires
        forall|i: int| 0 <= i < front.len() ==> at_or_before(#[trigger] front[i].when, when),
    ensures
        place(front + back, when) == front.len() + place(back, when),
    decreases back.len(),
{
    if back.len() == 0 {
        assert(front + back =~= front);
        if front.len() > 0 {
            assert(at_or_before(front[front.len() - 1].when, when));
        }
    } else {
        assert((front + back).last() == back.last());
        if !at_or_before(back.last().when, when) {
            assert((front + back).drop_last() =~= front + back.drop_last());
            lemma_place_behind(front, back.drop_last(), when);
        }
    }
}

/// Entries that are all no earlier than those in front of them are put in
/// order of time by putting the two parts in order each for itself.
pub proof fn lemma_in_time_order_concat(front: Seq<LogEntryView>, back: Seq<LogEntryView>)
    requires
        forall|i: int, j: int|
            0 <= i < front.len() && 0 <= j < back.len() ==> at_or_before(
                #[trigger] front[i].when,
                #[trigger] back[j].when,
            ),
    ensures
        in_time_order(front + back) == in_time_order(front) + in_time_order(back),
    decreases back.len(),
{
    if back.len() == 0 {
        assert(front + back =~= front);
        assert(in_time_order(front) + in_time_order(back) =~= in_time_order(front));
    } else {
        let rest = back.drop_last();
        let entry = back.last();
        assert((front + back).drop_last() =~= front + rest);
        assert((front + back).last() == entry);
        assert forall|i: int, j: int| 0 <= i < front.len() && 0 <= j < rest.len() implies at_or_before(
            #[trigger] front[i].when,
            #[trigger] rest[j].when,
        ) by {
            assert(rest[j] == back[j]);
        }
        lemma_in_time_order_concat(front, rest);
        let left = in_time_order(front);
        let right = in_time_order(rest);
        assert forall|k: int| 0 <= k < left.len() implies at_or_before(
            #[trigger] left[k].when,
            entry.when,
        ) by {
            let j = lemma_entry_source(front, k);
            assert(at_or_before(front[j].when, back[back.len() - 1].when));
        }
        lemma_place_behind(left, right, entry.when);
        lemma_place_splits(right, entry.when);
        assert((left + right).insert(left.len() + place(right, entry.when), entry) =~= left
            + right.insert(place(right, entry.when), entry));
    }
}

/// Looks at a sliding buffer are still looks at a sliding buffer when the
/// last of them is left out.
proof fn lemma_windows_without_last(
    polls: Seq<Seq<LogEntryView>>,
    log: Seq<LogEntryView>,
    lo: Seq<int>,
    hi: Seq<int>,
)
    requires
        sliding_windows(polls, log, lo, hi),
        polls.len() > 0,
    ensures
        sliding_windows(polls.drop_last(), log, lo.drop_last(), hi.drop_last()),
{
    let earlier = polls.drop_last();
    let lo_earlier = lo.drop_last();
    let hi_earlier = hi.drop_last();
    assert forall|k: int| 0 <= k < earlier.len() implies #[trigger] is_window(
        earlier[k],
        log,
        lo_earlier[k],
        hi_earlier[k],
    ) by {
        assert(is_window(polls[k], log, lo[k], hi[k]));
    }
    assert forall|k: int, m: int| 0 <= k <= m < earlier.len() implies #[trigger] lo_earlier[k]
        <= #[trigger] lo_earlier[m] by {
        assert(lo[k] <= lo[m]);
    }
    assert forall|k: int, m: int| 0 <= k <= m < earlier.len() implies #[trigger] hi_earlier[k]
        <= #[trigger] hi_earlier[m] by {
        assert(hi[k] <= hi[m]);
    }
    assert forall|k: int| 0 <= k < earlier.len() - 1 implies lo_earlier[k + 1]
        <= #[trigger] hi_earlier[k] by {
        assert(lo[k + 1] <= hi[k]);
    }
}

/// The next look of a console that has drawn the entries of a log from
/// `first` up to `seen`, at a buffer that holds the log from `start` up to
/// `end`, where everything from `seen` on is later than everything before:
/// it draws the entries from `seen` on in order of time, which continues the
/// order of time of the whole, and leaves the mark at the last of them.
pub proof fn lemma_next_look(log: Seq<LogEntryView>, first: int, start: int, seen: int, end: int)
    requires
        0 <= first <= start <= seen <= end <= log.len(),
        forall|i: int, j: int|
            first <= i < seen <= j < end ==> !at_or_before(
                #[trigger] log[j].when,
                #[trigger] log[i].when,
            ),
    ensures
        ({
            let drawn = in_time_order(log.subrange(first, seen));
            let mark = if first < seen {
                Some(drawn.last().when)
            } else {
                None
            };
            &&& new_entries(log.subrange(start, end), mark) == in_time_order(
                log.subrange(seen, end),
            )
            &&& in_time_order(log.subrange(first, end)) == drawn + in_time_order(
                log.subrange(seen, end),
            )
            &&& high_water(log.subrange(start, end), mark) == (if first < end {
                Some(in_time_order(log.subrange(first, end)).last().when)
            } else {
                None
            })
        }),
{
    let before = log.subrange(first, seen);
    let known = log.subrange(start, seen);
    let fresh = log.subrange(seen, end);
    let current = log.subrange(start, end);
    let drawn = in_time_order(before);
    let mark = if first < seen {
        Some(drawn.last().when)
    } else {
        None
    };
    lemma_in_time_order(before);
    lemma_in_time_order(fresh);
    assert forall|i: int| 0 <= i < known.len() implies !is_new(#[trigger] known[i].when, mark) by {
        assert(known[i] == before[start - first + i]);
        let k = lemma_entry_place(before, start - first + i);
    }
    assert forall|j: int| 0 <= j < fresh.len() implies is_new(#[trigger] fresh[j].when, mark) by {
        if first < seen {
            let source = lemma_entry_source(before, before.len() - 1);
            assert(before[source] == log[first + source]);
            assert(fresh[j] == log[seen + j]);
            assert(!at_or_before(log[seen + j].when, log[first + source].when));
        }
    }
    lemma_pending_none(known, mark);
    lemma_pending_all(fresh, mark);
    Seq::filter_distributes_over_add(known, fresh, newer_than(mark));
    assert(known + fresh =~= current);
    assert(pending(current, mark) =~= fresh);
    assert forall|i: int, j: int| 0 <= i < before.len() && 0 <= j < fresh.len() implies at_or_before(
        #[trigger] before[i].when,
        #[trigger] fresh[j].when,
    ) by {
        assert(before[i] == log[first + i]);
        assert(fresh[j] == log[seen + j]);
        assert(!at_or_before(log[seen + j].when, log[first + i].when));
    }
    lemma_in_time_order_concat(before, fresh);
    assert(before + fresh =~= log.subrange(first, end));
    if fresh.len() > 0 {
        assert((drawn + in_time_order(fresh)).last() == in_time_order(fresh).last());
    } else {
        assert(drawn + in_time_order(fresh) =~= drawn);
    }
}

/// Over a run of looks at a buffer that slides along a log, where whatever
/// enters the buffer after a look is later than everything before it, a
/// console that starts without a mark draws every entry that the buffer has
/// held, from the first entry of the first look to the last entry of the
/// last, each exactly once and in order of time. A look at a buffer that
/// holds nothing new adds nothing.
pub proof fn lemma_run_draws_each_entry_once(
    polls: Seq<Seq<LogEntryView>>,
    log: Seq<LogEntryView>,
    lo: Seq<int>,
    hi: Seq<int>,
)
    requires
        sliding_windows(polls, log, lo, hi),
        arrivals_later(log, hi),
        polls.len() > 0,
    ensures
        run_new_entries(polls, None) == in_time_order(log.subrange(lo[0], hi.last())),
        run_changes(polls, None) == rendered(in_time_order(log.subrange(lo[0], hi.last()))),
        run_high_water(polls, None) == (if lo[0] < hi.last() {
            Some(in_time_order(log.subrange(lo[0], hi.last())).last().when)
        } else {
            None
        }),
    decreases polls.len(),
{
    let last = polls.len() - 1;
    let current = polls.last();
    let earlier = polls.drop_last();
    assert(is_window(polls[last], log, lo[last], hi[last]));
    if earlier.len() == 0 {
        assert(run_new_entries(earlier, None) == Seq::<LogEntryView>::empty());
        assert(run_changes(earlier, None) == Seq::<ChangeView>::empty());
        lemma_pending_all(current, None);
        lemma_in_time_order(current);
        assert(Seq::<LogEntryView>::empty() + in_time_order(current) =~= in_time_order(current));
        assert(Seq::<ChangeView>::empty() + rendered(in_time_order(current)) =~= rendered(
            in_time_order(current),
        ));
    } else {
        lemma_windows_without_last(polls, log, lo, hi);
        assert(arrivals_later(log, hi.drop_last())) by {
            let shorter = hi.drop_last();
            assert forall|k: int, i: int, j: int|
                #![trigger shorter[k], log[i], log[j]]
                0 <= k < shorter.len() && 0 <= i < shorter[k] <= j < log.len() implies !at_or_before(
                log[j].when,
                log[i].when,
            ) by {
                assert(shorter[k] == hi[k]);
            }
        }
        lemma_run_draws_each_entry_once(earlier, log, lo.drop_last(), hi.drop_last());
        let first = lo[0];
        let seen = hi[last - 1];
        let start = lo[last];
        let end = hi[last];
        assert(lo.drop_last()[0] == first && hi.drop_last().last() == seen);
        assert(is_window(polls[last - 1], log, lo[last - 1], hi[last - 1]));
        assert(is_window(polls[0], log, lo[0], hi[0]));
        assert(first <= start <= seen <= end) by {
            assert(lo[0] <= lo[last]);
            assert(hi[last - 1] <= hi[last]);
            assert(lo[last - 1 + 1] <= hi[last - 1]);
        }
        assert forall|i: int, j: int| first <= i < seen <= j < end implies !at_or_before(
            #[trigger] log[j].when,
            #[trigger] log[i].when,
        ) by {
            assert(0 <= i < hi[last - 1] <= j < log.len());
        }
        lemma_next_look(log, first, start, seen, end);
        lemma_rendered_concat(
            in_time_order(log.subrange(first, seen)),
            in_time_order(log.subrange(seen, end)),
        );
    }
}

} // verus!
