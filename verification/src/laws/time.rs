//! Laws of time: what waits, what is due, what expires.
use vstd::prelude::*;

use crate::clock::{earlier, instant_named};
use crate::dispatch_queue_state::{fresh_entry, is_deferred, DispatchQueueEntryStatus, EntryView};
use crate::leasing::{is_expired, is_leasable, survives, swept};
use crate::listing::{is_next_deadline, is_waiting};
use crate::seqs::lemma_filter_within;
use crate::subject::DispatchView;

verus! {

/// Once an entry need not wait for its `run_at`, it never waits again.
pub proof fn law_due_stays_due(entry: EntryView, now: (int, int), later: (int, int))
    requires
        !is_deferred(entry, now),
        !earlier(later, now),
    ensures
        !is_deferred(entry, later),
{
}

/// An expired entry stays expired.
pub proof fn law_expired_stays_expired(entry: EntryView, now: (int, int), later: (int, int))
    requires
        is_expired(entry, now),
        !earlier(later, now),
    ensures
        is_expired(entry, later),
{
}

/// No entry expires while it still waits for its `run_at`.
pub proof fn law_waiting_entries_do_not_expire(entry: EntryView, now: (int, int))
    requires
        is_deferred(entry, now),
    ensures
        !is_expired(entry, now),
{
}

/// Without a `run_at` or without a grace window an entry never expires: it is
/// dispatched, however late.
pub proof fn law_no_window_never_expires(entry: EntryView, now: (int, int))
    requires
        entry.run_at is None || entry.expire_after_secs is None,
    ensures
        !is_expired(entry, now),
{
}

/// Of the pending entries with an envelope, those that count as deferred are
/// exactly those that may not be leased yet.
pub proof fn law_deferred_entries_are_not_yet_leasable(entry: EntryView, now: (int, int))
    requires
        entry.status == DispatchQueueEntryStatus::Pending,
        entry.dispatch is Some,
    ensures
        is_waiting(entry, now) == !is_leasable(entry, now),
{
}

/// A fresh entry can be leased at once, unless its `run_at` names an instant
/// that is still to come. A `run_at` that names no instant delays nothing.
pub proof fn law_fresh_entry_waits_only_for_run_at(
    dispatch: DispatchView,
    run_at: Option<Seq<char>>,
    expire_after_secs: Option<u64>,
    entry_id: Seq<char>,
    enqueued_at: Seq<char>,
    now: (int, int),
)
    ensures
        ({
            let entry = fresh_entry(dispatch, run_at, expire_after_secs, entry_id, enqueued_at);
            is_leasable(entry, now) == match run_at {
                Some(raw) => match instant_named(raw) {
                    Some(t) => !earlier(now, t),
                    None => true,
                },
                None => true,
            }
        }),
{
}

/// A sweep drops exactly the expired entries: every other entry is kept.
pub proof fn law_sweep_keeps_the_rest(entries: Seq<EntryView>, now: (int, int))
    ensures
        forall|i: int|
            0 <= i < entries.len() && !is_expired(#[trigger] entries[i], now) ==> swept(
                entries,
                now,
            ).contains(entries[i]),
        forall|k: int|
            0 <= k < swept(entries, now).len() ==> !is_expired(
                #[trigger] swept(entries, now)[k],
                now,
            ),
{
    assert forall|i: int| 0 <= i < entries.len() && !is_expired(
        #[trigger] entries[i],
        now,
    ) implies swept(entries, now).contains(entries[i]) by {
        entries.lemma_filter_contains(survives(now), i);
    }
    assert forall|k: int| 0 <= k < swept(entries, now).len() implies !is_expired(
        #[trigger] swept(entries, now)[k],
        now,
    ) by {
        entries.lemma_filter_pred(survives(now), k);
    }
}

/// A sweep makes earlier sweeps superfluous.
pub proof fn law_sweeps_accumulate(entries: Seq<EntryView>, now: (int, int), later: (int, int))
    requires
        !earlier(later, now),
    ensures
        swept(swept(entries, now), later) == swept(entries, later),
{
    assert forall|i: int| 0 <= i < entries.len() && survives(later)(
        #[trigger] entries[i],
    ) implies survives(now)(entries[i]) by {
        if is_expired(entries[i], now) {
            law_expired_stays_expired(entries[i], now, later);
        }
    }
    lemma_filter_within(entries, survives(now), survives(later));
}

/// Until the next deadline no entry becomes due, and at it one does: whoever
/// sleeps until then misses nothing.
pub proof fn law_nothing_is_due_before_the_deadline(
    entries: Seq<EntryView>,
    now: (int, int),
    deadline: Option<(int, int)>,
    later: (int, int),
    i: int,
)
    requires
        is_next_deadline(entries, now, deadline),
        !earlier(later, now),
        deadline matches Some(t) ==> earlier(later, t),
        0 <= i < entries.len(),
    ensures
        is_waiting(entries[i], later) == is_waiting(entries[i], now),
{
}

/// At the next deadline some entry stops waiting.
pub proof fn law_an_entry_is_due_at_the_deadline(
    entries: Seq<EntryView>,
    now: (int, int),
    deadline: (int, int),
)
    requires
        is_next_deadline(entries, now, Some(deadline)),
    ensures
        earlier(now, deadline),
        exists|i: int|
            0 <= i < entries.len() && is_waiting(#[trigger] entries[i], now) && !is_waiting(
                entries[i],
                deadline,
            ),
{
}

} // verus!
