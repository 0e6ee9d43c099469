//! Laws of loading and saving.
use vstd::prelude::*;

use crate::clock::UtcInstant;
use crate::dispatch_queue_state::{DispatchQueueState, EntryView};
use crate::dispatch_queue_store::{follows_parse, LoadAction};
use crate::enqueueing::{after_enqueue, duplicates, enqueue_answer, EnqueueOutcome};
use crate::identity::lemma_uuid_not_blank;
use crate::leasing::{swept, Step};
use crate::mutations::{after_mutation, mutation_answer, MutationView, QueueMutationError};
use crate::queue_protocol::{wire_views, QueueLeaseResponse, QueueMutationResponse};
use crate::queue_service::{are_workflow_ids, leased_at_some_time, leased_with};
use crate::seqs::lemma_first_where_is;
use crate::subject::DispatchView;
use crate::text::is_blank;

verus! {

/// Ids that loading gave out are stable: once the queue is saved with them,
/// loading it gives back the same queue.
pub proof fn law_new_ids_are_stable(
    entries: Seq<EntryView>,
    migrated: DispatchQueueState,
    action: LoadAction,
)
    requires
        follows_parse(entries, LoadAction::Persist(migrated)),
        follows_parse(migrated@, action),
    ensures
        action matches LoadAction::Finish(Some(state)) && state@ == migrated@,
{
    assert forall|i: int| 0 <= i < migrated@.len() implies !is_blank(
        (#[trigger] migrated@[i]).entry_id,
    ) by {
        if is_blank(entries[i].entry_id) {
            lemma_uuid_not_blank(migrated@[i].entry_id);
        }
    }
}

/// Loading never drops, moves or changes an entry, but for giving it an id.
pub proof fn law_loading_keeps_entries(
    entries: Seq<EntryView>,
    action: LoadAction,
    state: DispatchQueueState,
    i: int,
)
    requires
        follows_parse(entries, action),
        action == LoadAction::Finish(Some(state)) || action == LoadAction::Persist(state),
        0 <= i < entries.len(),
    ensures
        state@.len() == entries.len(),
        !is_blank(state@[i].entry_id),
        state@[i] == (EntryView { entry_id: state@[i].entry_id, ..entries[i] }),
        !is_blank(entries[i].entry_id) ==> state@[i] == entries[i],
{
    if action is Persist {
        if is_blank(entries[i].entry_id) {
            lemma_uuid_not_blank(state@[i].entry_id);
        }
    }
}

/// An operation that asks for no save has not changed the queue: what is on
/// disk stays up to date.
pub proof fn law_unsaved_is_unchanged_by_lease(
    before: Seq<EntryView>,
    after: Seq<EntryView>,
    max: nat,
    given: Option<Vec<String>>,
    exclude: Option<Seq<Seq<char>>>,
    step: Step<QueueLeaseResponse>,
)
    requires
        leased_at_some_time(before, after, max, given, exclude, step),
        !step.persist,
    ensures
        after == before,
{
    let (ids, now) = choose|ids: Seq<Seq<char>>, now: UtcInstant|
        are_workflow_ids(ids, given) && #[trigger] leased_with(
            before,
            after,
            max,
            ids,
            exclude,
            now,
            step,
        );
    if max > 0 {
        assert(wire_views(step.reply.leased@).len() == step.reply.leased@.len());
        assert(after =~= before);
    }
}

/// An enqueue that asks for no save has not changed the queue.
pub proof fn law_unsaved_is_unchanged_by_enqueue(
    entries: Seq<EntryView>,
    dispatch: DispatchView,
    id: Seq<char>,
    now: UtcInstant,
    step: Step<EnqueueOutcome>,
)
    requires
        enqueue_answer(entries, dispatch, id, now, step),
        !step.persist,
    ensures
        after_enqueue(entries, dispatch, id, now) == entries,
{
    lemma_first_where_is(swept(entries, now@), duplicates(dispatch));
}

/// A change of one entry that is refused or asks for no save has not changed
/// the queue.
pub proof fn law_unsaved_is_unchanged_by_mutation(
    entries: Seq<EntryView>,
    id: Seq<char>,
    mutation: MutationView,
    answer: Result<Step<QueueMutationResponse>, QueueMutationError>,
)
    requires
        mutation_answer(entries, id, mutation, answer),
        answer matches Ok(step) ==> !step.persist,
    ensures
        after_mutation(entries, id, mutation) == entries,
{
}

} // verus!
