//! What the queue answers: entries, listings and counts as clients see them.
use vstd::prelude::*;

use crate::clock::UtcInstant;
#[allow(unused_imports)]
use crate::clock::rfc3339_text;
use crate::dispatch_queue_state::DispatchQueueEntry;
#[allow(unused_imports)]
use crate::dispatch_queue_state::{effective_subject, effective_task, wire_status, EntryView};
use crate::subject::SubjectDispatch;
#[allow(unused_imports)]
use crate::subject::DispatchView;
use crate::text::copy_opt;
#[allow(unused_imports)]
use crate::text::opt_text;

verus! {

/// A queue entry as clients see it.
#[derive(Debug)]
pub struct QueueEntry {
    /// Stable entry id.
    pub entry_id: String,
    /// Effective subject id.
    pub subject_id: String,
    /// Effective task id.
    pub task_id: Option<String>,
    /// Full dispatch envelope.
    pub subject_dispatch: SubjectDispatch,
    /// Status (wire form).
    pub status: String,
    /// Attached workflow id.
    pub workflow_id: Option<String>,
    /// RFC 3339 enqueue timestamp.
    pub enqueued_at: String,
    /// RFC 3339 assignment timestamp.
    pub assigned_at: Option<String>,
    /// RFC 3339 hold timestamp.
    pub held_at: Option<String>,
}

/// What a [`QueueEntry`] holds.
#[verifier::ext_equal]
pub struct WireEntryView {
    pub entry_id: Seq<char>,
    pub subject_id: Seq<char>,
    pub task_id: Option<Seq<char>>,
    pub subject_dispatch: DispatchView,
    pub status: Seq<char>,
    pub workflow_id: Option<Seq<char>>,
    pub enqueued_at: Seq<char>,
    pub assigned_at: Option<Seq<char>>,
    pub held_at: Option<Seq<char>>,
}

impl View for QueueEntry {
    type V = WireEntryView;

    open spec fn view(&self) -> WireEntryView {
        WireEntryView {
            entry_id: self.entry_id@,
            subject_id: self.subject_id@,
            task_id: opt_text(self.task_id),
            subject_dispatch: self.subject_dispatch@,
            status: self.status@,
            workflow_id: opt_text(self.workflow_id),
            enqueued_at: self.enqueued_at@,
            assigned_at: opt_text(self.assigned_at),
            held_at: opt_text(self.held_at),
        }
    }
}

/// What each entry of an answer holds.
pub open spec fn wire_views(entries: Seq<QueueEntry>) -> Seq<WireEntryView> {
    entries.map_values(|entry: QueueEntry| entry@)
}

/// Aggregate counts.
#[derive(Debug, Clone, Copy, PartialEq, Eq, Structural)]
pub struct QueueStats {
    /// Entries of any status.
    pub total: usize,
    /// Entries waiting to be leased.
    pub pending: usize,
    /// Leased entries.
    pub assigned: usize,
    /// Held entries.
    pub held: usize,
    /// Pending entries whose `run_at` is still to come.
    pub deferred: usize,
}

/// Answer to a listing.
#[derive(Debug)]
pub struct QueueListResponse {
    /// The requested page.
    pub entries: Vec<QueueEntry>,
    /// How many entries passed the status filter, on all pages.
    pub total: usize,
    /// Counts over the whole queue.
    pub stats: QueueStats,
}

/// Answer to a lease.
#[derive(Debug)]
pub struct QueueLeaseResponse {
    /// The entries that were leased, in dispatch order.
    pub leased: Vec<QueueEntry>,
}

/// Answer to the mutation of one entry.
#[derive(Debug, Clone, Copy, PartialEq, Eq, Structural)]
pub struct QueueMutationResponse {
    /// Whether the entry was changed.
    pub changed: bool,
    /// Whether there was no such entry.
    pub not_found: bool,
}

/// Answer to a reordering.
#[derive(Debug, Clone, Copy, PartialEq, Eq, Structural)]
pub struct QueueReorderResponse {
    /// How many positions hold another entry than before.
    pub reordered_count: usize,
}

/// Answer to the release of a lease.
#[derive(Debug)]
pub struct QueueReleasePendingResponse {
    /// The released entry.
    pub entry_id: String,
    /// Its status now (wire form).
    pub status: String,
}

/// How clients see an entry that has an envelope. An entry that does not know
/// when it was enqueued shows the time of the answer, `at`.
pub open spec fn wire_entry(entry: EntryView, at: Seq<char>) -> WireEntryView
    recommends
        entry.dispatch is Some,
{
    WireEntryView {
        entry_id: entry.entry_id,
        subject_id: effective_subject(entry),
        task_id: effective_task(entry),
        subject_dispatch: entry.dispatch->0,
        status: wire_status(entry.status),
        workflow_id: entry.workflow_id,
        enqueued_at: match entry.enqueued_at {
            Some(enqueued_at) => enqueued_at,
            None => at,
        },
        assigned_at: entry.assigned_at,
        held_at: entry.held_at,
    }
}

/// What an optional answered entry holds.
pub open spec fn opt_wire(entry: Option<QueueEntry>) -> Option<WireEntryView> {
    match entry {
        Some(entry) => Some(entry@),
        None => None,
    }
}

/// The entry as clients see it at `now`. An entry without an envelope cannot
/// be shown.
pub fn entry_to_protocol(entry: &DispatchQueueEntry, now: UtcInstant) -> (shown: Option<
    QueueEntry,
>)
    requires
        now.wf(),
    ensures
        opt_wire(shown) == if entry@.dispatch is Some {
            Some(wire_entry(entry@, rfc3339_text(now.secs, now.nanos)))
        } else {
            None
        },
{
    let subject_dispatch = match &entry.dispatch {
        Some(dispatch) => dispatch.clone(),
        None => {
            return None;
        },
    };
    let task_id = match entry.task_id_ref() {
        Some(id) => Some(id.to_owned()),
        None => None,
    };
    let enqueued_at = match &entry.enqueued_at {
        Some(enqueued_at) => enqueued_at.clone(),
        None => now.to_rfc3339(),
    };
    Some(
        QueueEntry {
            entry_id: entry.entry_id.clone(),
            subject_id: entry.subject_id_ref().to_owned(),
            task_id,
            subject_dispatch,
            status: entry.status.as_wire().to_owned(),
            workflow_id: copy_opt(&entry.workflow_id),
            enqueued_at,
            assigned_at: copy_opt(&entry.assigned_at),
            held_at: copy_opt(&entry.held_at),
        },
    )
}

} // verus!
