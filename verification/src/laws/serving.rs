//! Which entries a lease serves, told by entries and answers alone.
use vstd::prelude::*;

use crate::clock::{rfc3339_parts, rfc3339_text, UtcInstant};
use crate::dispatch_queue_state::{
    effective_subject, effective_task, DispatchQueueEntryStatus, EntryView,
};
use crate::identity::is_uuid_v4;
use crate::laws::leases::{lemma_picked_iff, lemma_picks_prefix};
use crate::leasing::{
    after_lease, lease_picks, lease_reply, leased_entries, lemma_picks_ascend, picked, subject_key,
    survives, swept, with_assigned, Step,
};
use crate::queue_protocol::{wire_views, QueueLeaseResponse};
use crate::queue_service::{are_workflow_ids, leased_at_some_time, leased_with};
use crate::seqs::{lemma_filter_all, lemma_filter_at, lemma_filter_same_len};

verus! {

/// A sweep drops exactly the pending entries whose `run_at` and grace window
/// together lie before `now`, and keeps the order of the others. The result
/// names the indices that stay.
pub proof fn law_a_sweep_drops_what_is_past_its_window(
    entries: Seq<EntryView>,
    now: UtcInstant,
) -> (at: Seq<int>)
    ensures
        at.len() == swept(entries, now@).len(),
        forall|j: int, k: int| 0 <= j < k < at.len() ==> at[j] < at[k],
        forall|k: int|
            0 <= k < at.len() ==> 0 <= #[trigger] at[k] < entries.len() && swept(entries, now@)[k]
                == entries[at[k]],
        forall|i: int|
            0 <= i < entries.len() ==> (#[trigger] at.contains(i) <==> !{
                &&& entries[i].status == DispatchQueueEntryStatus::Pending
                &&& entries[i].run_at matches Some(raw)
                &&& rfc3339_parts(raw) matches Some(run)
                &&& entries[i].expire_after_secs matches Some(window)
                &&& {
                    let last = run.0 + window;
                    let rest = if window > 0 && run.1 >= 1_000_000_000 {
                        run.1 - 1_000_000_000
                    } else {
                        run.1 as int
                    };
                    last < now.secs || last == now.secs && rest < now.nanos
                }
            }),
{
    lemma_filter_at(entries, survives(now@))
}

/// In an ascending list, the members below a bound come first.
proof fn lemma_below(picks: Seq<int>, m: int, i: int)
    requires
        0 <= m <= picks.len(),
        forall|k: int| 0 <= k < m ==> #[trigger] picks[k] < i,
        forall|k: int| m <= k < picks.len() ==> #[trigger] picks[k] >= i,
    ensures
        picks.filter(|p: int| p < i).len() == m,
{
    let below = |p: int| p < i;
    let head = picks.take(m);
    let tail = picks.skip(m);
    assert(picks =~= head + tail);
    Seq::filter_distributes_over_add(head, tail, below);
    lemma_filter_all(head, below);
    let at = lemma_filter_at(tail, below);
    if at.len() > 0 {
        assert(at.contains(at[0]));
        assert(tail[at[0]] == picks[m + at[0]]);
    }
}

proof fn lemma_later_picks(
    entries: Seq<EntryView>,
    i: int,
    n: int,
    max: nat,
    exclude: Option<Seq<Seq<char>>>,
    now: (int, int),
)
    requires
        0 <= i <= n <= entries.len(),
    ensures
        ({
            let early = lease_picks(entries, i, max, exclude, now);
            let picks = lease_picks(entries, n, max, exclude, now);
            forall|k: int| early.len() <= k < picks.len() ==> #[trigger] picks[k] >= i
        }),
    decreases n,
{
    if i < n {
        lemma_later_picks(entries, i, n - 1, max, exclude, now);
        let fewer = lease_picks(entries, n - 1, max, exclude, now);
        let picks = lease_picks(entries, n, max, exclude, now);
        assert(forall|k: int| 0 <= k < fewer.len() ==> fewer[k] == #[trigger] picks[k]);
    }
}

/// First in, first out, with an exclusion list or without, and whether or not
/// `max` is reached: an entry is selected exactly when it is pending, has an
/// envelope, need not wait for its `run_at`, is not ruled out by its subject,
/// and fewer than `max` entries before it are selected. Only an exclusion list
/// rules subjects out: the listed ones, and those of the entries selected
/// before.
pub proof fn law_a_selection_is_first_in_first_out(
    entries: Seq<EntryView>,
    max: nat,
    exclude: Option<Seq<Seq<char>>>,
    now: UtcInstant,
)
    ensures
        ({
            let taken = picked(entries, max, exclude, now@);
            &&& taken.len() <= max
            &&& forall|j: int, k: int| 0 <= j < k < taken.len() ==> taken[j] < taken[k]
            &&& forall|k: int| 0 <= k < taken.len() ==> 0 <= #[trigger] taken[k] < entries.len()
            &&& forall|i: int|
                0 <= i < entries.len() ==> (#[trigger] taken.contains(i) <==> {
                    &&& entries[i].status == DispatchQueueEntryStatus::Pending
                    &&& entries[i].dispatch is Some
                    &&& !{
                        &&& entries[i].run_at matches Some(raw)
                        &&& rfc3339_parts(raw) matches Some(run)
                        &&& now.secs < run.0 || now.secs == run.0 && now.nanos < run.1
                    }
                    &&& exclude matches Some(listed) ==> {
                        &&& !listed.contains(entries[i].dispatch->0.subject_key)
                        &&& forall|k: int|
                            0 <= k < taken.len() && #[trigger] taken[k] < i
                                ==> entries[taken[k]].dispatch->0.subject_key
                                != entries[i].dispatch->0.subject_key
                    }
                    &&& taken.filter(|p: int| p < i).len() < max
                })
        }),
{
    let n = entries.len() as int;
    let taken = picked(entries, max, exclude, now@);
    lemma_picks_ascend(entries, n, max, exclude, now@);
    assert forall|i: int| 0 <= i < entries.len() implies (#[trigger] taken.contains(i) <==> {
        &&& entries[i].status == DispatchQueueEntryStatus::Pending
        &&& entries[i].dispatch is Some
        &&& !{
            &&& entries[i].run_at matches Some(raw)
            &&& rfc3339_parts(raw) matches Some(run)
            &&& now.secs < run.0 || now.secs == run.0 && now.nanos < run.1
        }
        &&& exclude matches Some(listed) ==> {
            &&& !listed.contains(entries[i].dispatch->0.subject_key)
            &&& forall|k: int|
                0 <= k < taken.len() && #[trigger] taken[k] < i
                    ==> entries[taken[k]].dispatch->0.subject_key
                    != entries[i].dispatch->0.subject_key
        }
        &&& taken.filter(|p: int| p < i).len() < max
    }) by {
        let early = lease_picks(entries, i, max, exclude, now@);
        lemma_picked_iff(entries, n, max, exclude, now@, i);
        lemma_picks_prefix(entries, i, n, max, exclude, now@);
        lemma_later_picks(entries, i, n, max, exclude, now@);
        lemma_picks_ascend(entries, i, max, exclude, now@);
        assert forall|k: int| 0 <= k < early.len() implies #[trigger] taken[k] < i by {
            assert(early[k] == taken[k]);
        }
        lemma_below(taken, early.len() as int, i);
        if exclude is Some {
            let key = subject_key(entries[i]);
            if forall|k: int|
                0 <= k < early.len() ==> subject_key(entries[#[trigger] early[k]]) != key {
                assert forall|k: int| 0 <= k < taken.len() && #[trigger] taken[k] < i implies
                    entries[taken[k]].dispatch->0.subject_key != key by {
                    assert(early[k] == taken[k]);
                    assert(subject_key(entries[early[k]]) != key);
                }
            } else {
                let k = choose|k: int|
                    0 <= k < early.len() && subject_key(entries[#[trigger] early[k]]) == key;
                assert(early[k] == taken[k]);
                assert(taken[k] < i);
            }
        }
    }
}

/// Assigning the entries at ascending indices gives each the workflow id of its
/// rank and the time of the lease, and leaves everything else as it was; the
/// client is told of those entries, in that order.
pub proof fn law_an_assignment_goes_by_rank(
    entries: Seq<EntryView>,
    taken: Seq<int>,
    ids: Seq<Seq<char>>,
    at: Seq<char>,
)
    requires
        forall|k: int| 0 <= k < taken.len() ==> 0 <= #[trigger] taken[k] < entries.len(),
        forall|j: int, k: int| 0 <= j < k < taken.len() ==> taken[j] < taken[k],
    ensures
        ({
            let after = with_assigned(entries, taken, ids, at);
            let reply = leased_entries(entries, taken, ids, at);
            &&& after.len() == entries.len()
            &&& reply.len() == taken.len()
            &&& forall|i: int|
                0 <= i < entries.len() && !taken.contains(i) ==> #[trigger] after[i] == entries[i]
            &&& forall|k: int|
                0 <= k < taken.len() ==> after[#[trigger] taken[k]] == (EntryView {
                    status: DispatchQueueEntryStatus::Assigned,
                    workflow_id: Some(ids[k]),
                    assigned_at: Some(at),
                    ..entries[taken[k]]
                })
            &&& forall|k: int|
                0 <= k < taken.len() ==> {
                    &&& (#[trigger] reply[k]).entry_id == entries[taken[k]].entry_id
                    &&& reply[k].subject_id == effective_subject(entries[taken[k]])
                    &&& reply[k].task_id == effective_task(entries[taken[k]])
                    &&& entries[taken[k]].dispatch matches Some(dispatch)
                        ==> reply[k].subject_dispatch == dispatch
                    &&& reply[k].status == "assigned"@
                    &&& reply[k].workflow_id == Some(ids[k])
                    &&& reply[k].assigned_at == Some(at)
                    &&& reply[k].held_at == entries[taken[k]].held_at
                    &&& reply[k].enqueued_at == match entries[taken[k]].enqueued_at {
                        Some(enqueued_at) => enqueued_at,
                        None => at,
                    }
                }
        }),
{
    let after = with_assigned(entries, taken, ids, at);
    assert forall|k: int| 0 <= k < taken.len() implies after[#[trigger] taken[k]] == (EntryView {
        status: DispatchQueueEntryStatus::Assigned,
        workflow_id: Some(ids[k]),
        assigned_at: Some(at),
        ..entries[taken[k]]
    }) by {
        assert(taken.contains(taken[k]));
        let r = taken.index_of(taken[k]);
        assert(taken[r] == taken[k]);
        assert(r == k);
    }
}

/// A lease sweeps, and then takes of what is left, in queue order and up to
/// `max`, each entry that is pending, has an envelope, need not wait for its
/// `run_at` and is not ruled out by its subject. Only an exclusion list rules
/// subjects out: the listed ones, and those of the entries taken before.
///
/// The result names the indices that are taken. Each of these entries is then
/// assigned, to the workflow id of its rank and at the time of the lease, and
/// is told to the client in that order; everything else stays as it was.
pub proof fn law_a_lease_serves_the_first_it_may(
    entries: Seq<EntryView>,
    max: nat,
    ids: Seq<Seq<char>>,
    exclude: Option<Seq<Seq<char>>>,
    now: UtcInstant,
) -> (taken: Seq<int>)
    requires
        max > 0,
    ensures
        ({
            let left = swept(entries, now@);
            let after = after_lease(entries, max, ids, exclude, now);
            let reply = lease_reply(entries, max, ids, exclude, now);
            let at = rfc3339_text(now.secs, now.nanos);
            &&& after.len() == left.len()
            &&& reply.len() == taken.len()
            &&& taken.len() <= max
            &&& forall|j: int, k: int| 0 <= j < k < taken.len() ==> taken[j] < taken[k]
            &&& forall|k: int| 0 <= k < taken.len() ==> 0 <= #[trigger] taken[k] < left.len()
            &&& forall|i: int|
                0 <= i < left.len() ==> (#[trigger] taken.contains(i) <==> {
                    &&& left[i].status == DispatchQueueEntryStatus::Pending
                    &&& left[i].dispatch is Some
                    &&& !{
                        &&& left[i].run_at matches Some(raw)
                        &&& rfc3339_parts(raw) matches Some(run)
                        &&& now.secs < run.0 || now.secs == run.0 && now.nanos < run.1
                    }
                    &&& exclude matches Some(listed) ==> {
                        &&& !listed.contains(left[i].dispatch->0.subject_key)
                        &&& forall|k: int|
                            0 <= k < taken.len() && #[trigger] taken[k] < i
                                ==> left[taken[k]].dispatch->0.subject_key
                                != left[i].dispatch->0.subject_key
                    }
                    &&& taken.filter(|p: int| p < i).len() < max
                })
            &&& forall|i: int|
                0 <= i < left.len() && !taken.contains(i) ==> #[trigger] after[i] == left[i]
            &&& forall|k: int|
                0 <= k < taken.len() ==> after[#[trigger] taken[k]] == (EntryView {
                    status: DispatchQueueEntryStatus::Assigned,
                    workflow_id: Some(ids[k]),
                    assigned_at: Some(at),
                    ..left[taken[k]]
                })
            &&& forall|k: int|
                0 <= k < taken.len() ==> {
                    &&& (#[trigger] reply[k]).entry_id == left[taken[k]].entry_id
                    &&& reply[k].subject_id == effective_subject(left[taken[k]])
                    &&& reply[k].task_id == effective_task(left[taken[k]])
                    &&& Some(reply[k].subject_dispatch) == left[taken[k]].dispatch
                    &&& reply[k].status == "assigned"@
                    &&& reply[k].workflow_id == Some(ids[k])
                    &&& reply[k].assigned_at == Some(at)
                    &&& reply[k].held_at == left[taken[k]].held_at
                    &&& reply[k].enqueued_at == match left[taken[k]].enqueued_at {
                        Some(enqueued_at) => enqueued_at,
                        None => at,
                    }
                }
        }),
{
    let left = swept(entries, now@);
    let taken = picked(left, max, exclude, now@);
    law_a_selection_is_first_in_first_out(left, max, exclude, now);
    law_an_assignment_goes_by_rank(left, taken, ids, rfc3339_text(now.secs, now.nanos));
    assert forall|k: int|
        0 <= k < taken.len() implies left[#[trigger] taken[k]].dispatch is Some by {
        assert(taken.contains(taken[k]));
    }
    taken
}

/// No entry is overtaken: where a lease assigns an entry and leaves one before
/// it that is pending, has an envelope and need not wait, the one left behind
/// is of a listed subject, or of the subject of an entry that was assigned
/// before it.
pub proof fn law_a_lease_overtakes_nothing(
    entries: Seq<EntryView>,
    max: nat,
    ids: Seq<Seq<char>>,
    exclude: Option<Seq<Seq<char>>>,
    now: UtcInstant,
    i: int,
    j: int,
)
    requires
        max > 0,
        0 <= i < j < swept(entries, now@).len(),
        swept(entries, now@)[i].status == DispatchQueueEntryStatus::Pending,
        swept(entries, now@)[i].dispatch is Some,
        !{
            &&& swept(entries, now@)[i].run_at matches Some(raw)
            &&& rfc3339_parts(raw) matches Some(run)
            &&& now.secs < run.0 || now.secs == run.0 && now.nanos < run.1
        },
        after_lease(entries, max, ids, exclude, now)[i] == swept(entries, now@)[i],
        after_lease(entries, max, ids, exclude, now)[j] != swept(entries, now@)[j],
    ensures
        ({
            let left = swept(entries, now@);
            let after = after_lease(entries, max, ids, exclude, now);
            let key = left[i].dispatch->0.subject_key;
            &&& exclude matches Some(listed)
            &&& listed.contains(key) || exists|h: int|
                0 <= h < i && left[h].dispatch->0.subject_key == key && after[h]
                    != #[trigger] left[h]
        }),
{
    let left = swept(entries, now@);
    let after = after_lease(entries, max, ids, exclude, now);
    let taken = law_a_lease_serves_the_first_it_may(entries, max, ids, exclude, now);
    assert(taken.contains(j));
    let r = taken.index_of(j);
    assert(taken[r] == j);
    if taken.contains(i) {
        let k = taken.index_of(i);
        assert(after[taken[k]].status == DispatchQueueEntryStatus::Assigned);
    }
    // Whatever was taken before `i` was taken before `j` too.
    assert(taken.filter(|p: int| p < i).len() <= taken.filter(|p: int| p < j).len()) by {
        lemma_fewer_below(taken, i, j);
    }
    if exclude is Some && !exclude->0.contains(left[i].dispatch->0.subject_key) {
        let k = choose|k: int|
            0 <= k < taken.len() && #[trigger] taken[k] < i
                && left[taken[k]].dispatch->0.subject_key == left[i].dispatch->0.subject_key;
        let h = taken[k];
        assert(taken.contains(h));
        assert(left[h].status == DispatchQueueEntryStatus::Pending);
        assert(after[h].status == DispatchQueueEntryStatus::Assigned);
    }
}

proof fn lemma_fewer_below(list: Seq<int>, i: int, j: int)
    requires
        i <= j,
    ensures
        list.filter(|p: int| p < i).len() <= list.filter(|p: int| p < j).len(),
    decreases list.len(),
{
    reveal(Seq::filter);
    if list.len() > 0 {
        lemma_fewer_below(list.drop_last(), i, j);
    }
}

/// A lease of none touches nothing, not even what is past its window.
pub proof fn law_a_lease_of_none_touches_nothing(
    entries: Seq<EntryView>,
    ids: Seq<Seq<char>>,
    exclude: Option<Seq<Seq<char>>>,
    now: UtcInstant,
)
    ensures
        after_lease(entries, 0, ids, exclude, now) == entries,
        lease_reply(entries, 0, ids, exclude, now).len() == 0,
{
    let left = swept(entries, now@);
    lemma_picks_ascend(left, left.len() as int, 0, exclude, now@);
}

/// A lease that succeeds is one at some instant, with the given workflow ids
/// in the given order, or with version 4 UUIDs, at least as many as entries
/// were leased. It has to be saved exactly when it changed the queue. The
/// result is that instant and those ids.
pub proof fn law_a_lease_uses_the_given_ids(
    before: Seq<EntryView>,
    after: Seq<EntryView>,
    max: nat,
    given: Option<Vec<String>>,
    exclude: Option<Seq<Seq<char>>>,
    step: Step<QueueLeaseResponse>,
) -> (used: (UtcInstant, Seq<Seq<char>>))
    requires
        leased_at_some_time(before, after, max, given, exclude, step),
    ensures
        used.0.wf(),
        after == after_lease(before, max, used.1, exclude, used.0),
        step.reply.leased@.len() == lease_reply(before, max, used.1, exclude, used.0).len(),
        forall|k: int|
            0 <= k < step.reply.leased@.len() ==> (#[trigger] step.reply.leased@[k])@
                == lease_reply(before, max, used.1, exclude, used.0)[k],
        step.reply.leased@.len() <= used.1.len(),
        match given {
            Some(given) => {
                &&& used.1.len() == given@.len()
                &&& forall|k: int| 0 <= k < given@.len() ==> #[trigger] used.1[k] == given@[k]@
            },
            None => forall|k: int| 0 <= k < used.1.len() ==> is_uuid_v4(#[trigger] used.1[k]),
        },
        step.persist <==> after != before,
{
    let (ids, now) = choose|ids: Seq<Seq<char>>, now: UtcInstant|
        are_workflow_ids(ids, given) && #[trigger] leased_with(
            before,
            after,
            max,
            ids,
            exclude,
            now,
            step,
        );
    let reply = lease_reply(before, max, ids, exclude, now);
    assert(wire_views(step.reply.leased@) == reply);
    assert forall|k: int| 0 <= k < step.reply.leased@.len() implies (
    #[trigger] step.reply.leased@[k])@ == reply[k] by {
        assert(wire_views(step.reply.leased@)[k] == step.reply.leased@[k]@);
    }
    if max == 0 {
        law_a_lease_of_none_touches_nothing(before, ids, exclude, now);
    } else {
        let left = swept(before, now@);
        let taken = law_a_lease_serves_the_first_it_may(before, max, ids, exclude, now);
        let kept = lemma_filter_at(before, survives(now@));
        if left == before {
            if taken.len() > 0 {
                assert(taken.contains(taken[0]));
                assert(after[taken[0]].status != left[taken[0]].status);
            } else {
                assert(after =~= left);
            }
        } else if after == before {
            assert(left.len() == before.len());
            lemma_filter_same_len(before, survives(now@));
        }
    }
    (now, ids)
}

} // verus!
