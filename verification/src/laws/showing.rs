//! What clients are shown and told, by the entries of the queue alone.
use vstd::prelude::*;

use crate::clock::{rfc3339_parts, rfc3339_text, UtcInstant};
use crate::dispatch_queue_state::{
    effective_subject, effective_task, run_instant, wire_status, DispatchQueueEntryStatus,
    EntryView,
};
use crate::listing::{
    counts, has_status_in, is_next_deadline, is_waiting, page, showable, shown, start, waiting,
    with_status,
};
use crate::queue_protocol::{wire_entry, wire_views, QueueListResponse, QueueStats};
use crate::queue_service::listed_at;
use crate::seqs::lemma_filter_at;

verus! {

/// A client sees of an entry its id, its effective subject and task, its
/// envelope, its status in wire form, its workflow, and its times. An entry
/// that does not know when it was enqueued shows the time of the answer.
pub proof fn law_a_client_sees_the_entry(entry: EntryView, at: Seq<char>)
    ensures
        wire_entry(entry, at).entry_id == entry.entry_id,
        wire_entry(entry, at).subject_id == effective_subject(entry),
        wire_entry(entry, at).task_id == effective_task(entry),
        entry.dispatch matches Some(dispatch) ==> wire_entry(entry, at).subject_dispatch
            == dispatch,
        wire_entry(entry, at).status == match entry.status {
            DispatchQueueEntryStatus::Pending => "pending"@,
            DispatchQueueEntryStatus::Assigned => "assigned"@,
            DispatchQueueEntryStatus::Held => "held"@,
            DispatchQueueEntryStatus::Unknown => "unknown"@,
        },
        wire_entry(entry, at).workflow_id == entry.workflow_id,
        entry.enqueued_at matches Some(enqueued_at) ==> wire_entry(entry, at).enqueued_at
            == enqueued_at,
        entry.enqueued_at is None ==> wire_entry(entry, at).enqueued_at == at,
        wire_entry(entry, at).assigned_at == entry.assigned_at,
        wire_entry(entry, at).held_at == entry.held_at,
{
}

/// A status filter admits the entries whose status, in wire form, is a member
/// of the filter, at whatever place it stands there; an empty filter admits
/// every entry. The order is kept. The result names the indices admitted.
pub proof fn law_a_status_filter_admits_its_members(
    entries: Seq<EntryView>,
    statuses: Seq<Seq<char>>,
) -> (admitted: Seq<int>)
    ensures
        admitted.len() == entries.filter(has_status_in(statuses)).len(),
        forall|j: int, k: int| 0 <= j < k < admitted.len() ==> admitted[j] < admitted[k],
        forall|k: int|
            0 <= k < admitted.len() ==> 0 <= #[trigger] admitted[k] < entries.len()
                && entries.filter(has_status_in(statuses))[k] == entries[admitted[k]],
        forall|i: int|
            0 <= i < entries.len() ==> (#[trigger] admitted.contains(i) <==> {
                ||| statuses.len() == 0
                ||| exists|j: int|
                    0 <= j < statuses.len() && #[trigger] statuses[j] == match entries[i].status {
                        DispatchQueueEntryStatus::Pending => "pending"@,
                        DispatchQueueEntryStatus::Assigned => "assigned"@,
                        DispatchQueueEntryStatus::Held => "held"@,
                        DispatchQueueEntryStatus::Unknown => "unknown"@,
                    }
            }),
{
    let p = has_status_in(statuses);
    let admitted = lemma_filter_at(entries, p);
    assert forall|i: int| 0 <= i < entries.len() implies (#[trigger] admitted.contains(i) <==> {
        ||| statuses.len() == 0
        ||| exists|j: int|
            0 <= j < statuses.len() && #[trigger] statuses[j] == wire_status(entries[i].status)
    }) by {
        assert(admitted.contains(i) <==> p(entries[i]));
    }
    admitted
}

/// A listing tells in `total` how many entries its status filter admits. Of
/// these, those from `offset` on and up to `limit` are on the page, and of these
/// the ones with an envelope are shown, in queue order.
///
/// The result names the indices that the filter admits, and those that are
/// shown.
pub proof fn law_a_listing_shows_its_page(
    entries: Seq<EntryView>,
    statuses: Seq<Seq<char>>,
    limit: Option<usize>,
    offset: Option<usize>,
    now: UtcInstant,
    response: QueueListResponse,
) -> (found: (Seq<int>, Seq<int>))
    requires
        listed_at(entries, statuses, limit, offset, now, response),
        response.total == entries.filter(has_status_in(statuses)).len(),
    ensures
        response.total == found.0.len(),
        forall|j: int, k: int| 0 <= j < k < found.0.len() ==> found.0[j] < found.0[k],
        forall|k: int| 0 <= k < found.0.len() ==> 0 <= #[trigger] found.0[k] < entries.len(),
        forall|i: int|
            0 <= i < entries.len() ==> (#[trigger] found.0.contains(i) <==> {
                ||| statuses.len() == 0
                ||| exists|j: int|
                    0 <= j < statuses.len() && #[trigger] statuses[j] == match entries[i].status {
                        DispatchQueueEntryStatus::Pending => "pending"@,
                        DispatchQueueEntryStatus::Assigned => "assigned"@,
                        DispatchQueueEntryStatus::Held => "held"@,
                        DispatchQueueEntryStatus::Unknown => "unknown"@,
                    }
            }),
        response.entries@.len() == found.1.len(),
        forall|j: int, k: int| 0 <= j < k < found.1.len() ==> found.1[j] < found.1[k],
        forall|k: int| 0 <= k < found.1.len() ==> 0 <= #[trigger] found.1[k] < entries.len(),
        forall|i: int|
            0 <= i < entries.len() ==> (#[trigger] found.1.contains(i) <==> {
                &&& entries[i].dispatch is Some
                &&& exists|k: int|
                    {
                        &&& 0 <= k < found.0.len()
                        &&& offset is Some ==> offset->0 <= k
                        &&& limit is Some && offset is Some ==> k < offset->0 + limit->0
                        &&& limit is Some && offset is None ==> k < limit->0
                        &&& #[trigger] found.0[k] == i
                    }
            }),
        forall|k: int|
            0 <= k < found.1.len() ==> (#[trigger] response.entries@[k])@ == wire_entry(
                entries[found.1[k]],
                rfc3339_text(now.secs, now.nanos),
            ),
{
    let at = rfc3339_text(now.secs, now.nanos);
    let looked = law_a_status_filter_admits_its_members(entries, statuses);
    let list = entries.filter(has_status_in(statuses));
    let sheet = page(list, start(offset), limit);
    let places = lemma_filter_at(sheet, showable());
    let first = start(offset) as int;
    let seen = Seq::new(places.len(), |k: int| looked[first + places[k]]);
    assert forall|k: int| 0 <= k < places.len() implies {
        &&& first + #[trigger] places[k] < looked.len()
        &&& sheet[places[k]] == list[first + places[k]]
        &&& limit matches Some(limit) ==> places[k] < limit
    } by {}
    assert forall|i: int| 0 <= i < entries.len() implies (#[trigger] seen.contains(i) <==> {
        &&& entries[i].dispatch is Some
        &&& exists|k: int|
            {
                &&& 0 <= k < looked.len()
                &&& offset is Some ==> offset->0 <= k
                &&& limit is Some && offset is Some ==> k < offset->0 + limit->0
                &&& limit is Some && offset is None ==> k < limit->0
                &&& #[trigger] looked[k] == i
            }
    }) by {
        if seen.contains(i) {
            let k = seen.index_of(i);
            assert(places.contains(places[k]));
            assert(looked[first + places[k]] == i);
        }
        if entries[i].dispatch is Some && exists|k: int|
            first <= k < looked.len() && (limit matches Some(limit) ==> k - first < limit)
                && #[trigger] looked[k] == i {
            let k = choose|k: int|
                first <= k < looked.len() && (limit matches Some(limit) ==> k - first < limit)
                    && #[trigger] looked[k] == i;
            assert(sheet[k - first] == list[k]);
            assert(places.contains(k - first));
            let r = places.index_of(k - first);
            assert(seen[r] == i);
        }
    }
    assert(wire_views(response.entries@) == shown(sheet, at));
    assert(wire_views(response.entries@).len() == response.entries@.len());
    assert(shown(sheet, at).len() == sheet.filter(showable()).len());
    assert forall|k: int| 0 <= k < seen.len() implies (#[trigger] response.entries@[k])@
        == wire_entry(entries[seen[k]], at) by {
        assert(wire_views(response.entries@)[k] == response.entries@[k]@);
        assert(sheet.filter(showable())[k] == sheet[places[k]]);
        assert(list[first + places[k]] == entries[looked[first + places[k]]]);
    }
    assert forall|j: int, k: int| 0 <= j < k < seen.len() implies seen[j] < seen[k] by {
        assert(places[j] < places[k]);
    }
    let found = (looked, seen);
    assert forall|i: int| 0 <= i < entries.len() implies (#[trigger] found.1.contains(i) <==> {
        &&& entries[i].dispatch is Some
        &&& exists|k: int|
            {
                &&& 0 <= k < found.0.len()
                &&& offset is Some ==> offset->0 <= k
                &&& limit is Some && offset is Some ==> k < offset->0 + limit->0
                &&& limit is Some && offset is None ==> k < limit->0
                &&& #[trigger] found.0[k] == i
            }
    }) by {
        assert(found.0 == looked && found.1 == seen);
        if seen.contains(i) {
            let k = choose|k: int|
                {
                    &&& 0 <= k < looked.len()
                    &&& offset is Some ==> offset->0 <= k
                    &&& limit is Some && offset is Some ==> k < offset->0 + limit->0
                    &&& limit is Some && offset is None ==> k < limit->0
                    &&& #[trigger] looked[k] == i
                };
            assert(found.0[k] == i);
        }
    }
    found
}

/// A listing does not depend on the order of the status filter, nor on how
/// often it repeats a status.
pub proof fn law_the_order_of_a_status_filter_is_free(
    entries: Seq<EntryView>,
    statuses: Seq<Seq<char>>,
    shuffled: Seq<Seq<char>>,
    limit: Option<usize>,
    offset: Option<usize>,
    now: UtcInstant,
    response: QueueListResponse,
)
    requires
        forall|status: Seq<char>| statuses.contains(status) <==> shuffled.contains(status),
    ensures
        entries.filter(has_status_in(statuses)) == entries.filter(has_status_in(shuffled)),
        listed_at(entries, statuses, limit, offset, now, response) <==> listed_at(
            entries,
            shuffled,
            limit,
            offset,
            now,
            response,
        ),
{
    if statuses.len() == 0 && shuffled.len() > 0 {
        assert(shuffled.contains(shuffled[0]));
    }
    if shuffled.len() == 0 && statuses.len() > 0 {
        assert(statuses.contains(statuses[0]));
    }
    assert(has_status_in(statuses) =~= has_status_in(shuffled));
}

/// A status more in a filter adds the entries of that status to the total: for
/// distinct statuses, the total is the sum over the statuses.
pub proof fn law_a_filter_counts_each_status(
    entries: Seq<EntryView>,
    statuses: Seq<Seq<char>>,
    status: Seq<char>,
)
    requires
        statuses.len() > 0,
        !statuses.contains(status),
    ensures
        entries.filter(has_status_in(seq![status])).len() == entries.filter(
            |entry: EntryView| wire_status(entry.status) == status,
        ).len(),
        entries.filter(has_status_in(statuses.push(status))).len() == entries.filter(
            has_status_in(statuses),
        ).len() + entries.filter(has_status_in(seq![status])).len(),
    decreases entries.len(),
{
    reveal(Seq::filter);
    let one = seq![status];
    let more = statuses.push(status);
    assert(one[0] == status);
    assert forall|s: Seq<char>| one.contains(s) <==> s == status by {
        assert(one.contains(status));
    }
    assert forall|s: Seq<char>| more.contains(s) <==> (statuses.contains(s) || s == status) by {
        if statuses.contains(s) {
            let k = statuses.index_of(s);
            assert(more[k] == s);
        }
        if s == status {
            assert(more[statuses.len() as int] == s);
        }
        if more.contains(s) {
            let k = more.index_of(s);
            if k < statuses.len() {
                assert(statuses[k] == s);
            }
        }
    }
    assert(has_status_in(one) =~= (|entry: EntryView| wire_status(entry.status) == status));
    if entries.len() > 0 {
        law_a_filter_counts_each_status(entries.drop_last(), statuses, status);
    }
}

/// The counts are over the whole queue: of all entries, of those with each
/// status, and of the pending ones whose `run_at` names an instant after `now`.
pub proof fn law_the_counts_are_of_the_entries(
    entries: Seq<EntryView>,
    now: UtcInstant,
    stats: QueueStats,
)
    requires
        counts(stats, entries, now@),
    ensures
        stats.total == entries.len(),
        stats.pending == entries.filter(
            |entry: EntryView| entry.status == DispatchQueueEntryStatus::Pending,
        ).len(),
        stats.assigned == entries.filter(
            |entry: EntryView| entry.status == DispatchQueueEntryStatus::Assigned,
        ).len(),
        stats.held == entries.filter(
            |entry: EntryView| entry.status == DispatchQueueEntryStatus::Held,
        ).len(),
        stats.deferred == entries.filter(
            |entry: EntryView|
                {
                    &&& entry.status == DispatchQueueEntryStatus::Pending
                    &&& entry.run_at matches Some(raw)
                    &&& rfc3339_parts(raw) matches Some(run)
                    &&& now.secs < run.0 || now.secs == run.0 && now.nanos < run.1
                },
        ).len(),
{
    assert(with_status(DispatchQueueEntryStatus::Pending) =~= (|entry: EntryView|
        entry.status == DispatchQueueEntryStatus::Pending));
    assert(with_status(DispatchQueueEntryStatus::Assigned) =~= (|entry: EntryView|
        entry.status == DispatchQueueEntryStatus::Assigned));
    assert(with_status(DispatchQueueEntryStatus::Held) =~= (|entry: EntryView|
        entry.status == DispatchQueueEntryStatus::Held));
    assert(waiting(now@) =~= (|entry: EntryView|
        {
            &&& entry.status == DispatchQueueEntryStatus::Pending
            &&& entry.run_at matches Some(raw)
            &&& rfc3339_parts(raw) matches Some(run)
            &&& now.secs < run.0 || now.secs == run.0 && now.nanos < run.1
        }));
}

/// The next deadline is the earliest instant after `now` that the `run_at` of a
/// pending entry names. There is none exactly where no pending entry names one.
pub proof fn law_the_next_deadline_is_the_earliest_to_come(
    entries: Seq<EntryView>,
    now: UtcInstant,
    deadline: Option<(int, int)>,
)
    requires
        is_next_deadline(entries, now@, deadline),
    ensures
        deadline matches Some(t) ==> now.secs < t.0 || now.secs == t.0 && now.nanos < t.1,
        deadline matches Some(t) ==> exists|i: int|
            0 <= i < entries.len() && {
                &&& (#[trigger] entries[i]).status == DispatchQueueEntryStatus::Pending
                &&& entries[i].run_at matches Some(raw)
                &&& rfc3339_parts(raw) matches Some(run)
                &&& run.0 == t.0 && run.1 == t.1
            },
        forall|i: int|
            0 <= i < entries.len() && {
                &&& (#[trigger] entries[i]).status == DispatchQueueEntryStatus::Pending
                &&& entries[i].run_at matches Some(raw)
                &&& rfc3339_parts(raw) matches Some(run)
                &&& now.secs < run.0 || now.secs == run.0 && now.nanos < run.1
            } ==> {
                let run = rfc3339_parts(entries[i].run_at->0)->0;
                deadline matches Some(t) && (t.0 < run.0 || t.0 == run.0 && t.1 <= run.1)
            },
{
    if deadline is Some {
        let t = deadline->0;
        let i = choose|i: int|
            #![trigger entries[i]]
            0 <= i < entries.len() && is_waiting(entries[i], now@)
                && run_instant(entries[i]) == Some(t);
        assert(entries[i].status == DispatchQueueEntryStatus::Pending);
    }
}

} // verus!
