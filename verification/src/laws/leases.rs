//! Laws of leases.
use vstd::prelude::*;

use crate::clock::{rfc3339_text, UtcInstant};
use crate::dispatch_queue_state::{DispatchQueueEntryStatus, EntryView};
use crate::leasing::{
    after_lease, ascending, assigned, is_leasable, lease_picks, lease_reply, lemma_assign_one,
    lemma_picks_ascend, lemma_picks_leasable, may_pick, picked, subject_key, survives, swept,
    with_assigned,
};
use crate::listing::{count_status, has_status_in, page, showable, shown, with_status};
use crate::queue_protocol::wire_entry;
use crate::seqs::{lemma_filter_all, lemma_filter_from, lemma_filter_take};

verus! {

/// Whether an entry may be leased at `now`.
pub open spec fn leasable(now: (int, int)) -> spec_fn(EntryView) -> bool {
    |entry: EntryView| is_leasable(entry, now)
}

/// How many of the first `n` entries may be leased at `now`.
pub open spec fn count_leasable(entries: Seq<EntryView>, n: int, now: (int, int)) -> nat {
    entries.take(n).filter(leasable(now)).len()
}

proof fn lemma_picks_are_counted(entries: Seq<EntryView>, n: int, max: nat, now: (int, int))
    requires
        0 <= n <= entries.len(),
    ensures
        lease_picks(entries, n, max, None, now).len() == if count_leasable(entries, n, now) < max {
            count_leasable(entries, n, now)
        } else {
            max
        },
    decreases n,
{
    if n == 0 {
        reveal(Seq::filter);
        assert(entries.take(0).len() == 0);
    } else {
        lemma_picks_are_counted(entries, n - 1, max, now);
        lemma_filter_take(entries, leasable(now), n - 1);
    }
}

/// A pick is decided by the entries before it.
pub proof fn lemma_picked_iff(
    entries: Seq<EntryView>,
    n: int,
    max: nat,
    exclude: Option<Seq<Seq<char>>>,
    now: (int, int),
    i: int,
)
    requires
        0 <= i < n <= entries.len(),
    ensures
        lease_picks(entries, n, max, exclude, now).contains(i) <==> may_pick(
            entries,
            lease_picks(entries, i, max, exclude, now),
            i,
            max,
            exclude,
            now,
        ),
    decreases n,
{
    let picks = lease_picks(entries, n, max, exclude, now);
    let fewer = lease_picks(entries, n - 1, max, exclude, now);
    lemma_picks_ascend(entries, n - 1, max, exclude, now);
    if i < n - 1 {
        lemma_picked_iff(entries, n - 1, max, exclude, now, i);
        if fewer.contains(i) {
            let k = fewer.index_of(i);
            assert(picks[k] == i);
        }
        if picks.contains(i) {
            let k = picks.index_of(i);
            assert(fewer[k] == i);
        }
    } else {
        if may_pick(entries, fewer, i, max, exclude, now) {
            assert(picks[picks.len() - 1] == i);
        } else {
            if fewer.contains(i) {
                let k = fewer.index_of(i);
                assert(fewer[k] < n - 1);
            }
        }
    }
}

pub proof fn lemma_picks_prefix(
    entries: Seq<EntryView>,
    i: int,
    n: int,
    max: nat,
    exclude: Option<Seq<Seq<char>>>,
    now: (int, int),
)
    requires
        0 <= i <= n <= entries.len(),
    ensures
        ({
            let early = lease_picks(entries, i, max, exclude, now);
            let picks = lease_picks(entries, n, max, exclude, now);
            &&& early.len() <= picks.len()
            &&& forall|k: int| 0 <= k < early.len() ==> #[trigger] early[k] == picks[k]
        }),
    decreases n,
{
    if i < n {
        lemma_picks_prefix(entries, i, n - 1, max, exclude, now);
    }
}

/// Without an exclusion list, a lease takes exactly the first `max` entries
/// that may be leased: first in, first out.
pub proof fn law_lease_is_first_in_first_out(
    entries: Seq<EntryView>,
    max: nat,
    now: (int, int),
    i: int,
)
    requires
        0 <= i < entries.len(),
    ensures
        picked(entries, max, None, now).contains(i) <==> is_leasable(entries[i], now)
            && count_leasable(entries, i, now) < max,
{
    let n = entries.len() as int;
    lemma_picked_iff(entries, n, max, None, now, i);
    lemma_picks_are_counted(entries, i, max, now);
}

/// Without an exclusion list, a lease takes as many entries as there are, up
/// to `max`.
pub proof fn law_lease_takes_what_there_is(entries: Seq<EntryView>, max: nat, now: (int, int))
    ensures
        ({
            let available = count_leasable(entries, entries.len() as int, now);
            picked(entries, max, None, now).len() == if available < max {
                available
            } else {
                max
            }
        }),
{
    lemma_picks_are_counted(entries, entries.len() as int, max, now);
}

/// Leased entries are pending ones that have an envelope and whose time has
/// come, taken in queue order, and at most `max`.
pub proof fn law_lease_takes_only_leasable_in_order(
    entries: Seq<EntryView>,
    max: nat,
    exclude: Option<Seq<Seq<char>>>,
    now: (int, int),
)
    ensures
        ({
            let picks = picked(entries, max, exclude, now);
            &&& picks.len() <= max
            &&& forall|k: int|
                0 <= k < picks.len() ==> 0 <= #[trigger] picks[k] < entries.len() && is_leasable(
                    entries[picks[k]],
                    now,
                )
            &&& forall|j: int, k: int| 0 <= j < k < picks.len() ==> picks[j] < picks[k]
        }),
{
    let n = entries.len() as int;
    lemma_picks_ascend(entries, n, max, exclude, now);
    lemma_picks_leasable(entries, n, max, exclude, now);
}

/// With an exclusion list, no listed subject is leased, and no subject twice.
pub proof fn law_lease_respects_exclusions(
    entries: Seq<EntryView>,
    max: nat,
    ids: Seq<Seq<char>>,
    listed: Seq<Seq<char>>,
    now: UtcInstant,
)
    ensures
        ({
            let reply = lease_reply(entries, max, ids, Some(listed), now);
            &&& forall|k: int|
                0 <= k < reply.len() ==> !listed.contains(
                    (#[trigger] reply[k]).subject_dispatch.subject_key,
                )
            &&& forall|j: int, k: int|
                0 <= j < k < reply.len() ==> (#[trigger] reply[j]).subject_dispatch.subject_key != (
                #[trigger] reply[k]).subject_dispatch.subject_key
        }),
{
    let left = swept(entries, now@);
    lemma_picks_leasable(left, left.len() as int, max, Some(listed), now@);
    let picks = picked(left, max, Some(listed), now@);
    let reply = lease_reply(entries, max, ids, Some(listed), now);
    assert forall|k: int| 0 <= k < reply.len() implies (
    #[trigger] reply[k]).subject_dispatch.subject_key == subject_key(left[picks[k]]) by {}
    assert forall|j: int, k: int| 0 <= j < k < reply.len() implies (
    #[trigger] reply[j]).subject_dispatch.subject_key != (
    #[trigger] reply[k]).subject_dispatch.subject_key by {
        assert(subject_key(left[picks[j]]) != subject_key(left[picks[k]]));
    }
}

/// An exclusion list only passes over what it must: an entry that may be
/// leased stays behind, in a lease with room left, only where its subject is
/// listed or an earlier entry of its subject was leased.
pub proof fn law_lease_advances_past_excluded_entries(
    entries: Seq<EntryView>,
    max: nat,
    listed: Seq<Seq<char>>,
    now: (int, int),
    i: int,
)
    requires
        0 <= i < entries.len(),
        is_leasable(entries[i], now),
        picked(entries, max, Some(listed), now).len() < max,
        !picked(entries, max, Some(listed), now).contains(i),
    ensures
        ({
            let picks = picked(entries, max, Some(listed), now);
            ||| listed.contains(subject_key(entries[i]))
            ||| exists|k: int|
                0 <= k < picks.len() && #[trigger] picks[k] < i && subject_key(entries[picks[k]])
                    == subject_key(entries[i])
        }),
{
    let n = entries.len() as int;
    let picks = picked(entries, max, Some(listed), now);
    let early = lease_picks(entries, i, max, Some(listed), now);
    lemma_picked_iff(entries, n, max, Some(listed), now, i);
    lemma_picks_prefix(entries, i, n, max, Some(listed), now);
    lemma_picks_ascend(entries, i, max, Some(listed), now);
    if !listed.contains(subject_key(entries[i])) {
        let k = choose|k: int|
            0 <= k < early.len() && subject_key(entries[#[trigger] early[k]]) == subject_key(
                entries[i],
            );
        assert(early[k] == picks[k]);
    }
}

/// A lease changes nothing but the leased entries, and of those only status,
/// workflow id and assignment time. Each leased entry gets the workflow id of
/// its rank, and the client is told what the queue now holds.
pub proof fn law_lease_changes_only_what_it_leases(
    entries: Seq<EntryView>,
    max: nat,
    ids: Seq<Seq<char>>,
    exclude: Option<Seq<Seq<char>>>,
    now: UtcInstant,
)
    requires
        max > 0,
    ensures
        ({
            let at = rfc3339_text(now.secs, now.nanos);
            let left = swept(entries, now@);
            let picks = picked(left, max, exclude, now@);
            let after = after_lease(entries, max, ids, exclude, now);
            let reply = lease_reply(entries, max, ids, exclude, now);
            &&& after.len() == left.len()
            &&& reply.len() == picks.len()
            &&& forall|i: int|
                0 <= i < left.len() && !picks.contains(i) ==> #[trigger] after[i] == left[i]
            &&& forall|k: int|
                0 <= k < picks.len() ==> {
                    &&& after[#[trigger] picks[k]] == assigned(left[picks[k]], ids[k], at)
                    &&& reply[k] == wire_entry(after[picks[k]], at)
                }
        }),
{
    let at = rfc3339_text(now.secs, now.nanos);
    let left = swept(entries, now@);
    let picks = picked(left, max, exclude, now@);
    lemma_picks_ascend(left, left.len() as int, max, exclude, now@);
    let after = after_lease(entries, max, ids, exclude, now);
    assert forall|k: int| 0 <= k < picks.len() implies after[#[trigger] picks[k]] == assigned(
        left[picks[k]],
        ids[k],
        at,
    ) by {
        assert(picks.contains(picks[k]));
        let r = picks.index_of(picks[k]);
        assert(picks[r] == picks[k]);
        assert(r == k);
    }
}

/// Whether no two entries have the same id.
pub open spec fn distinct_ids(entries: Seq<EntryView>) -> bool {
    forall|i: int, j: int|
        0 <= i < j < entries.len() ==> (#[trigger] entries[i]).entry_id != (
        #[trigger] entries[j]).entry_id
}

/// Dropping entries keeps ids distinct.
pub proof fn law_filter_keeps_ids_distinct(entries: Seq<EntryView>, p: spec_fn(EntryView) -> bool)
    requires
        distinct_ids(entries),
    ensures
        distinct_ids(entries.filter(p)),
    decreases entries.len(),
{
    reveal(Seq::filter);
    if entries.len() > 0 {
        let rest = entries.drop_last();
        let kept = rest.filter(p);
        assert forall|i: int, j: int| 0 <= i < j < rest.len() implies (
        #[trigger] rest[i]).entry_id != (#[trigger] rest[j]).entry_id by {
            assert(entries[i].entry_id != entries[j].entry_id);
        }
        law_filter_keeps_ids_distinct(rest, p);
        assert forall|k: int| 0 <= k < kept.len() implies (#[trigger] kept[k]).entry_id
            != entries.last().entry_id by {
            let i = lemma_filter_from(rest, p, k);
            assert(entries[i] == rest[i]);
            assert(entries[i].entry_id != entries[entries.len() - 1].entry_id);
        }
    }
}

/// A lease keeps ids distinct.
pub proof fn law_lease_keeps_ids_distinct(
    entries: Seq<EntryView>,
    max: nat,
    ids: Seq<Seq<char>>,
    exclude: Option<Seq<Seq<char>>>,
    now: UtcInstant,
)
    requires
        distinct_ids(entries),
    ensures
        distinct_ids(after_lease(entries, max, ids, exclude, now)),
{
    law_filter_keeps_ids_distinct(entries, survives(now@));
    let left = swept(entries, now@);
    let after = after_lease(entries, max, ids, exclude, now);
    if max > 0 {
        assert forall|i: int, j: int| 0 <= i < j < after.len() implies (
        #[trigger] after[i]).entry_id != (#[trigger] after[j]).entry_id by {
            assert(left[i].entry_id != left[j].entry_id);
        }
    }
}

/// What one lease hands out, no later lease hands out again, as long as the
/// lease stands.
pub proof fn law_nothing_is_leased_twice(
    entries: Seq<EntryView>,
    max: nat,
    ids: Seq<Seq<char>>,
    exclude: Option<Seq<Seq<char>>>,
    now: UtcInstant,
    max2: nat,
    ids2: Seq<Seq<char>>,
    exclude2: Option<Seq<Seq<char>>>,
    now2: UtcInstant,
    j: int,
    k: int,
)
    requires
        distinct_ids(entries),
        ({
            let after = after_lease(entries, max, ids, exclude, now);
            &&& 0 <= j < lease_reply(entries, max, ids, exclude, now).len()
            &&& 0 <= k < lease_reply(after, max2, ids2, exclude2, now2).len()
        }),
    ensures
        ({
            let after = after_lease(entries, max, ids, exclude, now);
            lease_reply(entries, max, ids, exclude, now)[j].entry_id != lease_reply(
                after,
                max2,
                ids2,
                exclude2,
                now2,
            )[k].entry_id
        }),
{
    let left = swept(entries, now@);
    let picks = picked(left, max, exclude, now@);
    lemma_picks_ascend(left, left.len() as int, max, exclude, now@);
    law_lease_changes_only_what_it_leases(entries, max, ids, exclude, now);
    law_lease_keeps_ids_distinct(entries, max, ids, exclude, now);
    let after = after_lease(entries, max, ids, exclude, now);
    let left2 = swept(after, now2@);
    let picks2 = picked(left2, max2, exclude2, now2@);
    lemma_picks_ascend(left2, left2.len() as int, max2, exclude2, now2@);
    lemma_picks_leasable(left2, left2.len() as int, max2, exclude2, now2@);
    let i = lemma_filter_from(after, survives(now2@), picks2[k]);
    assert(is_leasable(left2[picks2[k]], now2@));
    assert(after[picks[j]].status == DispatchQueueEntryStatus::Assigned);
    assert(i != picks[j]);
    if i < picks[j] {
        assert(after[i].entry_id != after[picks[j]].entry_id);
    } else {
        assert(after[picks[j]].entry_id != after[i].entry_id);
    }
}

proof fn lemma_count_update(
    entries: Seq<EntryView>,
    i: int,
    entry: EntryView,
    status: DispatchQueueEntryStatus,
)
    requires
        0 <= i < entries.len(),
    ensures
        count_status(entries.update(i, entry), status) + if entries[i].status == status {
            1int
        } else {
            0int
        } == count_status(entries, status) + if entry.status == status {
            1int
        } else {
            0int
        },
{
    let p = with_status(status);
    let head = entries.take(i);
    let tail = entries.skip(i + 1);
    let was = seq![entries[i]];
    let is = seq![entry];
    assert(entries =~= head + was + tail);
    assert(entries.update(i, entry) =~= head + is + tail);
    Seq::filter_distributes_over_add(head, was, p);
    Seq::filter_distributes_over_add(head + was, tail, p);
    Seq::filter_distributes_over_add(head, is, p);
    Seq::filter_distributes_over_add(head + is, tail, p);
    reveal(Seq::filter);
    assert(was.drop_last() =~= Seq::<EntryView>::empty());
    assert(is.drop_last() =~= Seq::<EntryView>::empty());
    assert(was.last() == entries[i] && is.last() == entry);
}

proof fn lemma_assigned_counts(
    entries: Seq<EntryView>,
    picks: Seq<int>,
    ids: Seq<Seq<char>>,
    at: Seq<char>,
    k: int,
)
    requires
        ascending(picks, entries.len() as int),
        0 <= k <= picks.len(),
        forall|j: int|
            0 <= j < picks.len() ==> entries[#[trigger] picks[j]].status
                == DispatchQueueEntryStatus::Pending,
    ensures
        ({
            let after = with_assigned(entries, picks.take(k), ids, at);
            &&& count_status(after, DispatchQueueEntryStatus::Assigned) == count_status(
                entries,
                DispatchQueueEntryStatus::Assigned,
            ) + k
            &&& count_status(after, DispatchQueueEntryStatus::Pending) + k == count_status(
                entries,
                DispatchQueueEntryStatus::Pending,
            )
            &&& count_status(after, DispatchQueueEntryStatus::Held) == count_status(
                entries,
                DispatchQueueEntryStatus::Held,
            )
        }),
    decreases k,
{
    if k == 0 {
        assert(with_assigned(entries, picks.take(0), ids, at) =~= entries);
    } else {
        lemma_assigned_counts(entries, picks, ids, at, k - 1);
        lemma_assign_one(entries, picks, ids, at, k - 1);
        let before = with_assigned(entries, picks.take(k - 1), ids, at);
        let i = picks[k - 1];
        let entry = assigned(entries[i], ids[k - 1], at);
        lemma_count_update(before, i, entry, DispatchQueueEntryStatus::Assigned);
        lemma_count_update(before, i, entry, DispatchQueueEntryStatus::Pending);
        lemma_count_update(before, i, entry, DispatchQueueEntryStatus::Held);
    }
}

/// A lease moves exactly the leased entries from the pending count to the
/// assigned count.
pub proof fn law_lease_moves_the_counts(
    entries: Seq<EntryView>,
    max: nat,
    ids: Seq<Seq<char>>,
    exclude: Option<Seq<Seq<char>>>,
    now: UtcInstant,
)
    requires
        max > 0,
    ensures
        ({
            let left = swept(entries, now@);
            let after = after_lease(entries, max, ids, exclude, now);
            let n = lease_reply(entries, max, ids, exclude, now).len();
            &&& count_status(after, DispatchQueueEntryStatus::Assigned) == count_status(
                left,
                DispatchQueueEntryStatus::Assigned,
            ) + n
            &&& count_status(after, DispatchQueueEntryStatus::Pending) + n == count_status(
                left,
                DispatchQueueEntryStatus::Pending,
            )
            &&& count_status(after, DispatchQueueEntryStatus::Held) == count_status(
                left,
                DispatchQueueEntryStatus::Held,
            )
        }),
{
    let left = swept(entries, now@);
    let picks = picked(left, max, exclude, now@);
    lemma_picks_ascend(left, left.len() as int, max, exclude, now@);
    lemma_picks_leasable(left, left.len() as int, max, exclude, now@);
    assert forall|j: int| 0 <= j < picks.len() implies left[#[trigger] picks[j]].status
        == DispatchQueueEntryStatus::Pending by {
        assert(is_leasable(left[picks[j]], now@));
    }
    lemma_assigned_counts(
        left,
        picks,
        ids,
        rfc3339_text(now.secs, now.nanos),
        picks.len() as int,
    );
    assert(picks.take(picks.len() as int) =~= picks);
}

/// What was leased is what a listing of the whole queue shows, as long as the
/// lease stands. An entry that does not know when it was enqueued is left out:
/// it shows the time of each answer.
pub proof fn law_listing_shows_what_was_leased(
    entries: Seq<EntryView>,
    max: nat,
    ids: Seq<Seq<char>>,
    exclude: Option<Seq<Seq<char>>>,
    now: UtcInstant,
    k: int,
    at: Seq<char>,
)
    requires
        max > 0,
        0 <= k < lease_reply(entries, max, ids, exclude, now).len(),
        ({
            let left = swept(entries, now@);
            left[picked(left, max, exclude, now@)[k]].enqueued_at is Some
        }),
    ensures
        ({
            let after = after_lease(entries, max, ids, exclude, now);
            shown(page(after.filter(has_status_in(seq![])), 0, None), at).contains(
                lease_reply(entries, max, ids, exclude, now)[k],
            )
        }),
{
    let left = swept(entries, now@);
    let picks = picked(left, max, exclude, now@);
    let after = after_lease(entries, max, ids, exclude, now);
    lemma_picks_ascend(left, left.len() as int, max, exclude, now@);
    lemma_picks_leasable(left, left.len() as int, max, exclude, now@);
    law_lease_changes_only_what_it_leases(entries, max, ids, exclude, now);
    lemma_filter_all(after, has_status_in(seq![]));
    assert(page(after, 0, None) =~= after);
    let i = picks[k];
    assert(is_leasable(left[i], now@));
    after.lemma_filter_contains(showable(), i);
    let kept = after.filter(showable());
    let r = kept.index_of(after[i]);
    assert(shown(after, at)[r] == wire_entry(after[i], at));
}

/// Whether an entry runs: it is leased and has an envelope.
pub open spec fn is_running(entry: EntryView) -> bool {
    entry.status == DispatchQueueEntryStatus::Assigned && entry.dispatch is Some
}

/// Whether no two running entries are for the same subject.
pub open spec fn one_at_a_time(entries: Seq<EntryView>) -> bool {
    forall|i: int, j: int|
        0 <= i < j < entries.len() && is_running(#[trigger] entries[i]) && is_running(
            #[trigger] entries[j],
        ) ==> subject_key(entries[i]) != subject_key(entries[j])
}

/// Whether `listed` holds the subject of every running entry.
pub open spec fn lists_running(listed: Seq<Seq<char>>, entries: Seq<EntryView>) -> bool {
    forall|i: int|
        0 <= i < entries.len() && is_running(#[trigger] entries[i]) ==> listed.contains(
            subject_key(entries[i]),
        )
}

proof fn lemma_filter_one_at_a_time(entries: Seq<EntryView>, p: spec_fn(EntryView) -> bool)
    requires
        one_at_a_time(entries),
    ensures
        one_at_a_time(entries.filter(p)),
    decreases entries.len(),
{
    reveal(Seq::filter);
    if entries.len() > 0 {
        let rest = entries.drop_last();
        let kept = rest.filter(p);
        assert forall|i: int, j: int|
            0 <= i < j < rest.len() && is_running(#[trigger] rest[i]) && is_running(
                #[trigger] rest[j],
            ) implies subject_key(rest[i]) != subject_key(rest[j]) by {
            assert(subject_key(entries[i]) != subject_key(entries[j]));
        }
        lemma_filter_one_at_a_time(rest, p);
        assert forall|k: int|
            0 <= k < kept.len() && is_running(#[trigger] kept[k]) && is_running(
                entries.last(),
            ) implies subject_key(kept[k]) != subject_key(entries.last()) by {
            let i = lemma_filter_from(rest, p, k);
            assert(entries[i] == rest[i]);
            assert(is_running(entries[entries.len() - 1]));
            assert(subject_key(entries[i]) != subject_key(entries[entries.len() - 1]));
        }
    }
}

/// A caller that lists the subjects of what runs keeps the entries of a
/// subject from running concurrently.
pub proof fn law_a_subject_runs_one_entry_at_a_time(
    entries: Seq<EntryView>,
    max: nat,
    ids: Seq<Seq<char>>,
    listed: Seq<Seq<char>>,
    now: UtcInstant,
)
    requires
        one_at_a_time(entries),
        lists_running(listed, entries),
    ensures
        one_at_a_time(after_lease(entries, max, ids, Some(listed), now)),
{
    if max > 0 {
        let left = swept(entries, now@);
        let picks = picked(left, max, Some(listed), now@);
        let after = after_lease(entries, max, ids, Some(listed), now);
        lemma_filter_one_at_a_time(entries, survives(now@));
        lemma_picks_ascend(left, left.len() as int, max, Some(listed), now@);
        lemma_picks_leasable(left, left.len() as int, max, Some(listed), now@);
        assert forall|i: int| 0 <= i < left.len() && is_running(
            #[trigger] left[i],
        ) implies listed.contains(subject_key(left[i])) by {
            let from = lemma_filter_from(entries, survives(now@), i);
            assert(is_running(entries[from]));
        }
        assert forall|i: int, j: int|
            0 <= i < j < after.len() && is_running(#[trigger] after[i]) && is_running(
                #[trigger] after[j],
            ) implies subject_key(after[i]) != subject_key(after[j]) by {
            assert(subject_key(after[i]) == subject_key(left[i]));
            assert(subject_key(after[j]) == subject_key(left[j]));
            let ki = picks.index_of(i);
            let kj = picks.index_of(j);
            if picks.contains(i) {
                assert(picks[ki] == i);
                assert(!listed.contains(subject_key(left[picks[ki]])));
            } else {
                assert(is_running(left[i]));
            }
            if picks.contains(j) {
                assert(picks[kj] == j);
                assert(!listed.contains(subject_key(left[picks[kj]])));
            } else {
                assert(is_running(left[j]));
            }
            if picks.contains(i) && picks.contains(j) {
                if ki < kj {
                    assert(subject_key(left[picks[ki]]) != subject_key(left[picks[kj]]));
                } else {
                    assert(picks[kj] <= picks[ki]);
                }
            }
        }
    }
}

} // verus!
