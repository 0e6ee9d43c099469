//! Laws of enqueueing.
use vstd::prelude::*;

use crate::clock::{rfc3339_text, UtcInstant};
use crate::dispatch_queue_state::{DispatchQueueEntryStatus, EntryView};
use crate::enqueueing::{
    about_subject, after_enqueue, after_schedule, duplicate_index, duplicates, enqueue_answer,
    schedule_answer, EnqueueOutcome,
};
use crate::laws::leases::{distinct_ids, law_filter_keeps_ids_distinct};
use crate::leasing::{is_expired, survives, swept, Step};
use crate::listing::{has_status_in, page, showable, shown};
use crate::mutations::{has_id, knows};
use crate::queue_protocol::wire_entry;
use crate::seqs::{
    first_where, lemma_filter_all, lemma_filter_from, lemma_first_where, lemma_first_where_is,
};
use crate::subject::DispatchView;

verus! {

proof fn lemma_first_survives(
    entries: Seq<EntryView>,
    p: spec_fn(EntryView) -> bool,
    q: spec_fn(EntryView) -> bool,
)
    requires
        first_where(entries, p) < entries.len(),
        q(entries[first_where(entries, p)]),
    ensures
        first_where(entries.filter(q), p) < entries.filter(q).len(),
        entries.filter(q)[first_where(entries.filter(q), p)] == entries[first_where(entries, p)],
{
    lemma_first_where_is(entries, p);
    let i = first_where(entries, p);
    let head = entries.take(i);
    let tail = entries.skip(i + 1);
    let found = seq![entries[i]];
    assert(entries =~= head + found + tail);
    Seq::filter_distributes_over_add(head, found, q);
    Seq::filter_distributes_over_add(head + found, tail, q);
    assert(found.filter(q) =~= found) by {
        reveal(Seq::filter);
        assert(found.drop_last() =~= Seq::<EntryView>::empty());
        assert(found.last() == entries[i]);
    }
    let kept = entries.filter(q);
    let k = head.filter(q).len() as int;
    assert(kept =~= head.filter(q) + found + tail.filter(q));
    assert(kept[k] == entries[i]);
    assert forall|j: int| 0 <= j < k implies !p(#[trigger] kept[j]) by {
        let from = lemma_filter_from(head, q, j);
        assert(kept[j] == head.filter(q)[j]);
        assert(head[from] == entries[from]);
    }
    lemma_first_where(kept, p, k);
}

/// Enqueueing the same dispatch again adds nothing and answers the same entry
/// id, unless the entry that stands for it has expired in between.
pub proof fn law_enqueue_is_idempotent(
    entries: Seq<EntryView>,
    dispatch: DispatchView,
    id: Seq<char>,
    now: UtcInstant,
    step: Step<EnqueueOutcome>,
    id2: Seq<char>,
    now2: UtcInstant,
    step2: Step<EnqueueOutcome>,
)
    requires
        enqueue_answer(entries, dispatch, id, now, step),
        ({
            let after = after_enqueue(entries, dispatch, id, now);
            &&& enqueue_answer(after, dispatch, id2, now2, step2)
            &&& !is_expired(after[duplicate_index(after, dispatch)], now2@)
        }),
    ensures
        !step2.reply.enqueued,
        step2.reply.entry_id@ == step.reply.entry_id@,
        ({
            let after = after_enqueue(entries, dispatch, id, now);
            after_enqueue(after, dispatch, id2, now2) == swept(after, now2@)
        }),
{
    let left = swept(entries, now@);
    let after = after_enqueue(entries, dispatch, id, now);
    let p = duplicates(dispatch);
    lemma_first_where_is(left, p);
    if duplicate_index(left, dispatch) == left.len() {
        let fresh = after[left.len() as int];
        assert(p(fresh));
        assert forall|j: int| 0 <= j < left.len() implies !p(#[trigger] after[j]) by {
            assert(after[j] == left[j]);
        }
        lemma_first_where(after, p, left.len() as int);
    }
    lemma_first_survives(after, p, survives(now2@));
    lemma_first_where_is(swept(after, now2@), p);
}

/// A scheduled enqueue for a subject that has an entry is answered with a
/// warning, unless that entry has expired in between.
pub proof fn law_a_second_entry_of_a_subject_is_reported(
    entries: Seq<EntryView>,
    first: DispatchView,
    run_at: Option<Seq<char>>,
    expire_after_secs: Option<u64>,
    id: Seq<char>,
    now: UtcInstant,
    second: DispatchView,
    id2: Seq<char>,
    now2: UtcInstant,
    step2: Step<EnqueueOutcome>,
)
    requires
        second.subject_key == first.subject_key,
        ({
            let after = after_schedule(entries, first, run_at, expire_after_secs, id, now);
            &&& !is_expired(after.last(), now2@)
            &&& schedule_answer(after, second, id2, now2, step2)
        }),
    ensures
        step2.reply.enqueued,
        step2.reply.warning is Some,
{
    let after = after_schedule(entries, first, run_at, expire_after_secs, id, now);
    let left = swept(after, now2@);
    let p = about_subject(second.subject_key);
    let last = after.len() - 1;
    after.lemma_filter_contains(survives(now2@), last);
    let k = left.index_of(after[last]);
    assert(p(left[k]));
    lemma_first_where_is(left, p);
}

/// An enqueue never removes or reorders what it does not expire: the entries
/// before stay as they were, and a new entry comes last.
pub proof fn law_enqueue_appends(
    entries: Seq<EntryView>,
    dispatch: DispatchView,
    run_at: Option<Seq<char>>,
    expire_after_secs: Option<u64>,
    id: Seq<char>,
    now: UtcInstant,
)
    ensures
        ({
            let left = swept(entries, now@);
            let after = after_schedule(entries, dispatch, run_at, expire_after_secs, id, now);
            &&& after.len() == left.len() + 1
            &&& after.drop_last() == left
            &&& after.last().entry_id == id
            &&& after.last().dispatch == Some(dispatch)
            &&& after.last().status == DispatchQueueEntryStatus::Pending
        }),
        ({
            let left = swept(entries, now@);
            let after = after_enqueue(entries, dispatch, id, now);
            after == left || after.drop_last() == left && after.last().entry_id == id
        }),
{
    let left = swept(entries, now@);
    assert(after_schedule(entries, dispatch, run_at, expire_after_secs, id, now).drop_last()
        =~= left);
    assert(duplicate_index(left, dispatch) >= left.len() ==> after_enqueue(
        entries,
        dispatch,
        id,
        now,
    ).drop_last() =~= left);
}

/// An enqueue under a new id keeps ids distinct.
pub proof fn law_enqueue_keeps_ids_distinct(
    entries: Seq<EntryView>,
    dispatch: DispatchView,
    run_at: Option<Seq<char>>,
    expire_after_secs: Option<u64>,
    id: Seq<char>,
    now: UtcInstant,
)
    requires
        distinct_ids(entries),
        !knows(entries, id),
    ensures
        distinct_ids(after_schedule(entries, dispatch, run_at, expire_after_secs, id, now)),
        distinct_ids(after_enqueue(entries, dispatch, id, now)),
{
    let left = swept(entries, now@);
    law_filter_keeps_ids_distinct(entries, survives(now@));
    lemma_first_where_is(entries, has_id(id));
    assert forall|k: int| 0 <= k < left.len() implies (#[trigger] left[k]).entry_id != id by {
        let i = lemma_filter_from(entries, survives(now@), k);
        assert(!has_id(id)(entries[i]));
    }
}

/// What was enqueued is what a listing of the whole queue shows last.
pub proof fn law_listing_shows_what_was_enqueued(
    entries: Seq<EntryView>,
    dispatch: DispatchView,
    run_at: Option<Seq<char>>,
    expire_after_secs: Option<u64>,
    id: Seq<char>,
    now: UtcInstant,
    at: Seq<char>,
)
    ensures
        ({
            let after = after_schedule(entries, dispatch, run_at, expire_after_secs, id, now);
            let seen = shown(page(after.filter(has_status_in(seq![])), 0, None), at);
            &&& seen.len() > 0
            &&& seen.last().entry_id == id
            &&& seen.last().subject_dispatch == dispatch
            &&& seen.last().status == "pending"@
            &&& seen.last().workflow_id is None
            &&& seen.last().enqueued_at == rfc3339_text(now.secs, now.nanos)
        }),
{
    let after = after_schedule(entries, dispatch, run_at, expire_after_secs, id, now);
    let any = has_status_in(seq![]);
    lemma_filter_all(after, any);
    assert(page(after, 0, None) =~= after);
    reveal(Seq::filter);
    let kept = after.filter(showable());
    assert(kept.last() == after.last());
    assert(shown(after, at).last() == wire_entry(after.last(), at));
}

} // verus!
