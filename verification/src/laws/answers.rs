//! Laws of counts, listings and requests.
use vstd::prelude::*;

use crate::dispatch_queue_state::{wire_status, DispatchQueueEntryStatus, EntryView};
use crate::dispatch_queue_store::{is_component_name, is_separator, text_path_parts};
use crate::frames::{after_parse, newline, step_after, FrameStep, ParseOutcome};
use crate::listing::{count_status, count_waiting, counts, waiting, with_status};
use crate::plugin::{
    advertised, is_bound_by, is_protocol_note, route_of, PluginProfile, ProjectBinding, Route,
};
use crate::queue_protocol::QueueStats;
use crate::queue_service::QueueBackend;
use crate::rpc::{reports, ErrorCode, RpcError};
use crate::seqs::{lemma_filter_take, lemma_first_where_is};

verus! {

/// The counts of single statuses do not exceed the total, and where every
/// status is known they make up the total. Deferred entries are among the
/// pending ones.
pub proof fn law_counts_add_up(stats: QueueStats, entries: Seq<EntryView>, now: (int, int))
    requires
        counts(stats, entries, now),
    ensures
        stats.pending + stats.assigned + stats.held <= stats.total,
        stats.deferred <= stats.pending,
        (forall|i: int|
            0 <= i < entries.len() ==> (#[trigger] entries[i]).status
                != DispatchQueueEntryStatus::Unknown) ==> stats.pending + stats.assigned
            + stats.held == stats.total,
{
    lemma_counts(entries, entries.len() as int, now);
    assert(entries.take(entries.len() as int) =~= entries);
}

proof fn lemma_counts(entries: Seq<EntryView>, n: int, now: (int, int))
    requires
        0 <= n <= entries.len(),
    ensures
        ({
            let some = entries.take(n);
            let known = count_status(some, DispatchQueueEntryStatus::Pending) + count_status(
                some,
                DispatchQueueEntryStatus::Assigned,
            ) + count_status(some, DispatchQueueEntryStatus::Held);
            &&& known <= n
            &&& count_waiting(some, now) <= count_status(some, DispatchQueueEntryStatus::Pending)
            &&& (forall|i: int|
                0 <= i < n ==> (#[trigger] entries[i]).status != DispatchQueueEntryStatus::Unknown)
                ==> known == n
        }),
    decreases n,
{
    if n == 0 {
        reveal(Seq::filter);
        assert(entries.take(0).len() == 0);
    } else {
        lemma_counts(entries, n - 1, now);
        lemma_filter_take(entries, with_status(DispatchQueueEntryStatus::Pending), n - 1);
        lemma_filter_take(entries, with_status(DispatchQueueEntryStatus::Assigned), n - 1);
        lemma_filter_take(entries, with_status(DispatchQueueEntryStatus::Held), n - 1);
        lemma_filter_take(entries, waiting(now), n - 1);
    }
}

/// Different statuses have different wire forms.
pub proof fn law_wire_forms_differ(a: DispatchQueueEntryStatus, b: DispatchQueueEntryStatus)
    requires
        wire_status(a) == wire_status(b),
    ensures
        a == b,
{
    reveal_strlit("pending");
    reveal_strlit("assigned");
    reveal_strlit("held");
    reveal_strlit("unknown");
    assert("pending"@[0] == 'p' && "assigned"@[0] == 'a');
    assert("held"@[0] == 'h' && "unknown"@[0] == 'u');
}

/// Every advertised method is served.
pub proof fn law_advertised_methods_are_served(i: int)
    requires
        0 <= i < advertised().len(),
    ensures
        route_of(advertised()[i]) != Route::NotFound,
        route_of(advertised()[i]) != Route::Ignore,
{
    lemma_queue_methods_are_no_notes(i);
}

proof fn lemma_queue_methods_are_no_notes(i: int)
    requires
        0 <= i < advertised().len(),
    ensures
        !is_protocol_note(advertised()[i]),
        advertised()[i] != "initialized"@,
{
    reveal_strlit("initialized");
    reveal_strlit("queue/enqueue");
    reveal_strlit("queue/list");
    reveal_strlit("queue/lease");
    reveal_strlit("queue/stats");
    reveal_strlit("queue/hold");
    reveal_strlit("queue/release");
    reveal_strlit("queue/drop");
    reveal_strlit("queue/reorder");
    reveal_strlit("queue/mark_assigned");
    reveal_strlit("queue/completion");
    reveal_strlit("health/check");
    assert(advertised()[i][0] == 'q' || advertised()[i][0] == 'h');
}

/// The first project root that is bound stays bound: naming it again, however
/// it is spelled, is accepted, and naming another one is refused.
pub proof fn law_the_first_root_stays_bound(
    root: String,
    bound: (QueueBackend, PluginProfile),
    again: String,
    answer: Result<(QueueBackend, PluginProfile), RpcError>,
)
    requires
        is_bound_by(None, ProjectBinding::Root(root), Ok(bound)),
        is_bound_by(Some(bound.0), ProjectBinding::Root(again), answer),
    ensures
        bound.0.root() == text_path_parts(root@),
        text_path_parts(again@) == text_path_parts(root@) ==> answer is Ok
            && answer->Ok_0.0.root() == bound.0.root(),
        text_path_parts(again@) != text_path_parts(root@) ==> answer is Err
            && answer->Err_0.code == ErrorCode::ProjectBindingMismatch,
{
}

/// A root beside the bound one, with another last name in the same directory,
/// is another root and is refused.
pub proof fn law_a_sibling_root_is_refused(
    root: String,
    bound: (QueueBackend, PluginProfile),
    again: String,
    answer: Result<(QueueBackend, PluginProfile), RpcError>,
    dir: Seq<char>,
    name: Seq<char>,
    other: Seq<char>,
)
    requires
        is_bound_by(None, ProjectBinding::Root(root), Ok(bound)),
        is_bound_by(Some(bound.0), ProjectBinding::Root(again), answer),
        dir.len() > 0,
        dir.last() == '/',
        dir.len() > 1 ==> !(is_separator(dir[0]) && is_separator(dir[1])),
        is_component_name(name),
        is_component_name(other),
        root@ == dir + name,
        again@ == dir + other,
        name != other,
    ensures
        answer matches Err(error) && reports(
            error,
            ErrorCode::ProjectBindingMismatch,
            "another project root is already bound"@,
        ),
{
    let i = dir.len() - 1;
    assert(root@.skip(i + 1) =~= name && root@.take(i + 1) =~= dir);
    assert(again@.skip(i + 1) =~= other && again@.take(i + 1) =~= dir);
    if dir.len() == 1 {
        assert(name.contains(name[0]) && other.contains(other[0]));
    }
    assert(text_path_parts(root@) == text_path_parts(dir).push(name));
    assert(text_path_parts(again@) == text_path_parts(dir).push(other));
    assert(text_path_parts(root@).last() == name);
    assert(text_path_parts(again@).last() == other);
}

/// Parsing makes progress or waits: bytes are discarded only with a frame or
/// with the rest of an invalid line, and what stays is the end of what was
/// there.
pub proof fn law_frames_make_progress(bytes: Seq<u8>, outcome: ParseOutcome)
    requires
        outcome matches ParseOutcome::Frame { consumed } ==> 0 < consumed <= bytes.len(),
    ensures
        ({
            let after = after_parse(bytes, outcome);
            let gone = bytes.len() - after.len();
            &&& after == bytes.skip(gone)
            &&& step_after(bytes, outcome) == FrameStep::AwaitInput ==> gone == 0
            &&& step_after(bytes, outcome) != FrameStep::AwaitInput ==> gone > 0
            &&& outcome is Invalid && gone > 0 ==> bytes[gone - 1] == 0x0a
        }),
{
    lemma_first_where_is(bytes, newline());
    let after = after_parse(bytes, outcome);
    assert(after =~= bytes.skip(bytes.len() - after.len()));
}

} // verus!
