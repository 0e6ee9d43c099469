//! Counting and listing the queue.
use vstd::prelude::*;

use crate::clock::UtcInstant;
#[allow(unused_imports)]
use crate::clock::{earlier, rfc3339_text};
#[allow(unused_imports)]
use crate::dispatch_queue_state::{is_deferred, run_instant, wire_status, EntryView};
use crate::dispatch_queue_state::{DispatchQueueEntryStatus, DispatchQueueState};
use crate::queue_protocol::{entry_to_protocol, QueueEntry, QueueListResponse, QueueStats};
#[allow(unused_imports)]
use crate::queue_protocol::{wire_entry, wire_views, WireEntryView};
#[allow(unused_imports)]
use crate::seqs::lemma_filter_take;
use crate::text::holds_text;
#[allow(unused_imports)]
use crate::text::texts;

verus! {

// ------------------------------------------------------------ counts

/// Whether an entry has the status `status`.
pub open spec fn with_status(status: DispatchQueueEntryStatus) -> spec_fn(EntryView) -> bool {
    |entry: EntryView| entry.status == status
}

/// Whether an entry is pending and must still wait for its `run_at`.
pub open spec fn is_waiting(entry: EntryView, now: (int, int)) -> bool {
    entry.status == DispatchQueueEntryStatus::Pending && is_deferred(entry, now)
}

/// Whether an entry is pending and must still wait for its `run_at`.
pub open spec fn waiting(now: (int, int)) -> spec_fn(EntryView) -> bool {
    |entry: EntryView| is_waiting(entry, now)
}

/// How many entries have the status `status`.
pub open spec fn count_status(
    entries: Seq<EntryView>,
    status: DispatchQueueEntryStatus,
) -> nat {
    entries.filter(with_status(status)).len()
}

/// How many pending entries must still wait at `now`.
pub open spec fn count_waiting(entries: Seq<EntryView>, now: (int, int)) -> nat {
    entries.filter(waiting(now)).len()
}

/// Whether `stats` counts the queue at `now`.
pub open spec fn counts(stats: QueueStats, entries: Seq<EntryView>, now: (int, int)) -> bool {
    &&& stats.total == entries.len()
    &&& stats.pending == count_status(entries, DispatchQueueEntryStatus::Pending)
    &&& stats.assigned == count_status(entries, DispatchQueueEntryStatus::Assigned)
    &&& stats.held == count_status(entries, DispatchQueueEntryStatus::Held)
    &&& stats.deferred == count_waiting(entries, now)
}

/// Counts the queue at `now`.
pub fn stats_from_state(state: &DispatchQueueState, now: UtcInstant) -> (stats: QueueStats)
    ensures
        counts(stats, state@, now@),
{
    let ghost s = state@;
    let mut pending: usize = 0;
    let mut assigned: usize = 0;
    let mut held: usize = 0;
    let mut deferred: usize = 0;
    let mut i: usize = 0;
    assert(s.take(0) =~= Seq::<EntryView>::empty());
    assert forall|p: spec_fn(EntryView) -> bool| (#[trigger] s.take(0).filter(p)).len() == 0 by {
        reveal(Seq::filter);
    }
    while i < state.entries.len()
        invariant
            s == state@,
            i <= state.entries.len(),
            pending == count_status(s.take(i as int), DispatchQueueEntryStatus::Pending),
            assigned == count_status(s.take(i as int), DispatchQueueEntryStatus::Assigned),
            held == count_status(s.take(i as int), DispatchQueueEntryStatus::Held),
            deferred == count_waiting(s.take(i as int), now@),
            pending <= i,
            assigned <= i,
            held <= i,
            deferred <= i,
        decreases state.entries.len() - i,
    {
        let entry = &state.entries[i];
        proof {
            assert(s[i as int] == entry@);
            lemma_filter_take(s, with_status(DispatchQueueEntryStatus::Pending), i as int);
            lemma_filter_take(s, with_status(DispatchQueueEntryStatus::Assigned), i as int);
            lemma_filter_take(s, with_status(DispatchQueueEntryStatus::Held), i as int);
            lemma_filter_take(s, waiting(now@), i as int);
        }
        match entry.status {
            DispatchQueueEntryStatus::Pending => {
                pending += 1;
                if entry.is_deferred_until_future(now) {
                    deferred += 1;
                }
            },
            DispatchQueueEntryStatus::Assigned => {
                assigned += 1;
            },
            DispatchQueueEntryStatus::Held => {
                held += 1;
            },
            DispatchQueueEntryStatus::Unknown => {},
        }
        i += 1;
    }
    assert(s.take(i as int) =~= s);
    QueueStats { total: state.entries.len(), pending, assigned, held, deferred }
}

// ----------------------------------------------------------- listing

/// Whether an entry's status is among those asked for. No status asked for
/// means any.
pub open spec fn has_status_in(statuses: Seq<Seq<char>>) -> spec_fn(EntryView) -> bool {
    |entry: EntryView| statuses.len() == 0 || statuses.contains(wire_status(entry.status))
}

/// The page of up to `limit` members that starts at `offset`.
pub open spec fn page<A>(list: Seq<A>, offset: nat, limit: Option<usize>) -> Seq<A> {
    let rest = if offset >= list.len() {
        Seq::empty()
    } else {
        list.skip(offset as int)
    };
    if limit is Some && limit->0 < rest.len() {
        rest.take(limit->0 as int)
    } else {
        rest
    }
}

/// Whether an entry has an envelope, so that clients can see it.
pub open spec fn showable() -> spec_fn(EntryView) -> bool {
    |entry: EntryView| entry.dispatch is Some
}

/// How clients see the entries that can be shown.
pub open spec fn shown(entries: Seq<EntryView>, at: Seq<char>) -> Seq<WireEntryView> {
    entries.filter(showable()).map_values(|entry: EntryView| wire_entry(entry, at))
}

/// The offset that a listing starts from.
pub open spec fn start(offset: Option<usize>) -> nat {
    match offset {
        Some(offset) => offset as nat,
        None => 0,
    }
}

/// One member more changes a page only where the page still has room for it.
proof fn lemma_page_push<A>(list: Seq<A>, x: A, offset: nat, limit: Option<usize>)
    ensures
        page(list.push(x), offset, limit) == if list.len() >= offset && (limit is None
            || list.len() - offset < limit->0) {
            page(list, offset, limit).push(x)
        } else {
            page(list, offset, limit)
        },
{
    let more = list.push(x);
    if list.len() >= offset && (limit is None || list.len() - offset < limit->0) {
        assert(page(more, offset, limit) =~= page(list, offset, limit).push(x));
    } else {
        assert(page(more, offset, limit) =~= page(list, offset, limit));
    }
}

proof fn lemma_shown_push(entries: Seq<EntryView>, entry: EntryView, at: Seq<char>)
    ensures
        shown(entries.push(entry), at) == if entry.dispatch is Some {
            shown(entries, at).push(wire_entry(entry, at))
        } else {
            shown(entries, at)
        },
{
    reveal(Seq::filter);
    assert(entries.push(entry).drop_last() =~= entries);
    assert(shown(entries.push(entry), at) =~= if entry.dispatch is Some {
        shown(entries, at).push(wire_entry(entry, at))
    } else {
        shown(entries, at)
    });
}

/// Lists a page of the entries whose status is among `status_filter`, with
/// counts of the whole queue. Entries without an envelope count toward the
/// page but cannot be shown.
pub fn list_at(
    state: &DispatchQueueState,
    status_filter: &[String],
    limit: Option<usize>,
    offset: Option<usize>,
    now: UtcInstant,
) -> (response: QueueListResponse)
    requires
        now.wf(),
    ensures
        response.total == state@.filter(has_status_in(texts(status_filter@))).len(),
        wire_views(response.entries@) == shown(
            page(
                state@.filter(has_status_in(texts(status_filter@))),
                start(offset),
                limit,
            ),
            rfc3339_text(now.secs, now.nanos),
        ),
        counts(response.stats, state@, now@),
{
    let ghost s = state@;
    let ghost p = has_status_in(texts(status_filter@));
    let ghost at = rfc3339_text(now.secs, now.nanos);
    let stats = stats_from_state(state, now);
    let first: usize = match offset {
        Some(offset) => offset,
        None => 0,
    };
    let mut entries: Vec<QueueEntry> = Vec::new();
    let mut total: usize = 0;
    let mut i: usize = 0;
    proof {
        reveal(Seq::filter);
        assert(s.take(0).filter(p) =~= Seq::<EntryView>::empty());
        assert(page(s.take(0).filter(p), first as nat, limit) =~= Seq::<EntryView>::empty());
        assert(wire_views(entries@) =~= shown(page(s.take(0).filter(p), first as nat, limit), at));
    }
    while i < state.entries.len()
        invariant
            now.wf(),
            s == state@,
            p == has_status_in(texts(status_filter@)),
            at == rfc3339_text(now.secs, now.nanos),
            i <= state.entries.len(),
            total <= i,
            total == s.take(i as int).filter(p).len(),
            wire_views(entries@) == shown(
                page(s.take(i as int).filter(p), first as nat, limit),
                at,
            ),
        decreases state.entries.len() - i,
    {
        let entry = &state.entries[i];
        let ghost listed = s.take(i as int).filter(p);
        let ghost before = entries@;
        proof {
            assert(s[i as int] == entry@);
            lemma_filter_take(s, p, i as int);
            lemma_page_push(listed, entry@, first as nat, limit);
            lemma_shown_push(page(listed, first as nat, limit), entry@, at);
        }
        if status_filter.len() == 0 || holds_text(status_filter, entry.status.as_wire()) {
            let in_page = total >= first && match limit {
                Some(limit) => total - first < limit,
                None => true,
            };
            if in_page {
                match entry_to_protocol(entry, now) {
                    Some(seen) => {
                        entries.push(seen);
                        assert(wire_views(entries@) =~= wire_views(before).push(seen@));
                    },
                    None => {},
                }
            }
            total += 1;
        }
        i += 1;
    }
    assert(s.take(i as int) =~= s);
    QueueListResponse { entries, total, stats }
}

// ---------------------------------------------------------- deadlines

/// Whether `deadline` is the earliest `run_at` for which a pending entry
/// still waits at `now`; `None` where no entry waits.
pub open spec fn is_next_deadline(
    entries: Seq<EntryView>,
    now: (int, int),
    deadline: Option<(int, int)>,
) -> bool {
    match deadline {
        Some(t) => {
            &&& exists|i: int|
                #![trigger entries[i]]
                0 <= i < entries.len() && is_waiting(entries[i], now) && run_instant(entries[i])
                    == Some(t)
            &&& forall|i: int|
                #![trigger entries[i]]
                0 <= i < entries.len() && is_waiting(entries[i], now) ==> !earlier(
                    run_instant(entries[i])->0,
                    t,
                )
        },
        None => forall|i: int|
            #![trigger entries[i]]
            0 <= i < entries.len() ==> !is_waiting(entries[i], now),
    }
}

/// The earliest `run_at` for which a pending entry still waits at `now`.
pub fn next_deadline_at(state: &DispatchQueueState, now: UtcInstant) -> (deadline: Option<
    UtcInstant,
>)
    ensures
        is_next_deadline(state@, now@, crate::clock::opt_instant(deadline)),
        deadline matches Some(t) ==> t.wf(),
{
    let ghost s = state@;
    let mut next: Option<UtcInstant> = None;
    let mut i: usize = 0;
    while i < state.entries.len()
        invariant
            s == state@,
            i <= state.entries.len(),
            is_next_deadline(s.take(i as int), now@, crate::clock::opt_instant(next)),
            next matches Some(t) ==> t.wf(),
        decreases state.entries.len() - i,
    {
        let entry = &state.entries[i];
        let ghost fewer = s.take(i as int);
        let ghost more = s.take(i + 1);
        let ghost before = next;
        proof {
            assert(s[i as int] == entry@);
            assert(more[i as int] == entry@);
            assert(forall|j: int| 0 <= j < i ==> fewer[j] == #[trigger] more[j]);
            assert(forall|j: int| 0 <= j < i ==> #[trigger] fewer[j] == more[j]);
        }
        if entry.status == DispatchQueueEntryStatus::Pending {
            match entry.parsed_run_at() {
                Some(run_at) => {
                    if now.is_before(run_at) {
                        let sooner = match next {
                            Some(t) => run_at.is_before(t),
                            None => true,
                        };
                        if sooner {
                            next = Some(run_at);
                        }
                    }
                },
                None => {},
            }
        }
        i += 1;
    }
    assert(s.take(i as int) =~= s);
    next
}

} // verus!
