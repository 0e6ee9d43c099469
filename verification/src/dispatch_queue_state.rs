//! Queue state: entries in dispatch order, with their status and history.
use vstd::prelude::*;

use crate::clock::{UtcInstant, LAST_SECOND};
#[allow(unused_imports)]
use crate::clock::{earlier, instant_named, opt_instant, rfc3339_text, seconds_after};
use crate::identity::fresh_uuid;
#[allow(unused_imports)]
use crate::identity::is_uuid_v4;
use crate::subject::{copy_dispatch, SubjectDispatch};
#[allow(unused_imports)]
use crate::subject::{opt_dispatch, DispatchView};
use crate::text::copy_opt;
#[allow(unused_imports)]
use crate::text::{is_blank, opt_str, opt_text, trimmed};

verus! {

/// Entry status.
#[derive(Debug, Clone, Copy, PartialEq, Eq, Structural)]
pub enum DispatchQueueEntryStatus {
    /// Waiting to be leased.
    Pending,
    /// Leased; a workflow is running against it.
    Assigned,
    /// Held by operator action; non-dispatchable.
    Held,
    /// Forward-compatible fallthrough for unknown wire values.
    Unknown,
}

/// The wire form of a status.
pub open spec fn wire_status(status: DispatchQueueEntryStatus) -> Seq<char> {
    match status {
        DispatchQueueEntryStatus::Pending => "pending"@,
        DispatchQueueEntryStatus::Assigned => "assigned"@,
        DispatchQueueEntryStatus::Held => "held"@,
        DispatchQueueEntryStatus::Unknown => "unknown"@,
    }
}

impl Default for DispatchQueueEntryStatus {
    fn default() -> (status: Self)
        ensures
            status == DispatchQueueEntryStatus::Pending,
    {
        DispatchQueueEntryStatus::Pending
    }
}

impl DispatchQueueEntryStatus {
    /// Wire form of the status.
    pub fn as_wire(self) -> (wire: &'static str)
        ensures
            wire@ == wire_status(self),
    {
        match self {
            DispatchQueueEntryStatus::Pending => "pending",
            DispatchQueueEntryStatus::Assigned => "assigned",
            DispatchQueueEntryStatus::Held => "held",
            DispatchQueueEntryStatus::Unknown => "unknown",
        }
    }
}

/// One row in [`DispatchQueueEntry::audit_log`]: why a state transition
/// happened.
#[derive(Debug)]
pub struct DispatchQueueAuditEntry {
    /// RFC 3339 timestamp of the transition.
    pub at: String,
    /// Method that caused the transition.
    pub method: String,
    /// Status before the transition (wire form).
    pub from_status: String,
    /// Status after the transition (wire form).
    pub to_status: String,
    /// Caller-supplied reason.
    pub reason: String,
}

/// What a [`DispatchQueueAuditEntry`] holds.
#[verifier::ext_equal]
pub struct AuditView {
    pub at: Seq<char>,
    pub method: Seq<char>,
    pub from_status: Seq<char>,
    pub to_status: Seq<char>,
    pub reason: Seq<char>,
}

impl View for DispatchQueueAuditEntry {
    type V = AuditView;

    open spec fn view(&self) -> AuditView {
        AuditView {
            at: self.at@,
            method: self.method@,
            from_status: self.from_status@,
            to_status: self.to_status@,
            reason: self.reason@,
        }
    }
}

impl Clone for DispatchQueueAuditEntry {
    fn clone(&self) -> (copy: Self)
        ensures
            copy@ == self@,
    {
        DispatchQueueAuditEntry {
            at: self.at.clone(),
            method: self.method.clone(),
            from_status: self.from_status.clone(),
            to_status: self.to_status.clone(),
            reason: self.reason.clone(),
        }
    }
}

/// One queue entry, keyed by `entry_id` for all mutations.
#[derive(Debug)]
pub struct DispatchQueueEntry {
    /// Stable entry id (a version 4 UUID) assigned on enqueue. Blank in state
    /// that was written before entries had ids.
    pub entry_id: String,
    /// Cached subject key from the dispatch envelope.
    pub subject_id: Option<String>,
    /// Task id; empty when the subject is not a built-in task.
    pub task_id: String,
    /// Full dispatch envelope.
    pub dispatch: Option<SubjectDispatch>,
    /// Current status.
    pub status: DispatchQueueEntryStatus,
    /// Attached workflow id (when assigned).
    pub workflow_id: Option<String>,
    /// RFC 3339 enqueue timestamp.
    pub enqueued_at: Option<String>,
    /// RFC 3339 assignment timestamp.
    pub assigned_at: Option<String>,
    /// RFC 3339 hold timestamp.
    pub held_at: Option<String>,
    /// RFC 3339 earliest dispatch time of a deferred entry. Before it the
    /// entry stays pending but is not leased.
    pub run_at: Option<String>,
    /// Seconds after `run_at` before a still pending entry expires. `None` is
    /// never; ignored without `run_at`.
    pub expire_after_secs: Option<u64>,
    /// State transitions recorded with a reason.
    pub audit_log: Vec<DispatchQueueAuditEntry>,
}

/// What a [`DispatchQueueEntry`] holds.
#[verifier::ext_equal]
pub struct EntryView {
    pub entry_id: Seq<char>,
    pub subject_id: Option<Seq<char>>,
    pub task_id: Seq<char>,
    pub dispatch: Option<DispatchView>,
    pub status: DispatchQueueEntryStatus,
    pub workflow_id: Option<Seq<char>>,
    pub enqueued_at: Option<Seq<char>>,
    pub assigned_at: Option<Seq<char>>,
    pub held_at: Option<Seq<char>>,
    pub run_at: Option<Seq<char>>,
    pub expire_after_secs: Option<u64>,
    pub audit_log: Seq<AuditView>,
}

impl View for DispatchQueueEntry {
    type V = EntryView;

    open spec fn view(&self) -> EntryView {
        EntryView {
            entry_id: self.entry_id@,
            subject_id: opt_text(self.subject_id),
            task_id: self.task_id@,
            dispatch: opt_dispatch(self.dispatch),
            status: self.status,
            workflow_id: opt_text(self.workflow_id),
            enqueued_at: opt_text(self.enqueued_at),
            assigned_at: opt_text(self.assigned_at),
            held_at: opt_text(self.held_at),
            run_at: opt_text(self.run_at),
            expire_after_secs: self.expire_after_secs,
            audit_log: audit_rows(self.audit_log@),
        }
    }
}

/// What each row of an audit log holds.
pub open spec fn audit_rows(rows: Seq<DispatchQueueAuditEntry>) -> Seq<AuditView> {
    rows.map_values(|row: DispatchQueueAuditEntry| row@)
}

fn copy_audit_log(rows: &Vec<DispatchQueueAuditEntry>) -> (copy: Vec<DispatchQueueAuditEntry>)
    ensures
        audit_rows(copy@) == audit_rows(rows@),
{
    let mut copy: Vec<DispatchQueueAuditEntry> = Vec::new();
    let mut i: usize = 0;
    while i < rows.len()
        invariant
            i <= rows.len(),
            copy@.len() == i,
            forall|j: int| 0 <= j < i ==> (#[trigger] copy@[j])@ == rows@[j]@,
        decreases rows.len() - i,
    {
        copy.push(rows[i].clone());
        i += 1;
    }
    assert(audit_rows(copy@) =~= audit_rows(rows@));
    copy
}

impl Clone for DispatchQueueEntry {
    fn clone(&self) -> (copy: Self)
        ensures
            copy@ == self@,
    {
        DispatchQueueEntry {
            entry_id: self.entry_id.clone(),
            subject_id: copy_opt(&self.subject_id),
            task_id: self.task_id.clone(),
            dispatch: copy_dispatch(&self.dispatch),
            status: self.status,
            workflow_id: copy_opt(&self.workflow_id),
            enqueued_at: copy_opt(&self.enqueued_at),
            assigned_at: copy_opt(&self.assigned_at),
            held_at: copy_opt(&self.held_at),
            run_at: copy_opt(&self.run_at),
            expire_after_secs: self.expire_after_secs,
            audit_log: copy_audit_log(&self.audit_log),
        }
    }
}

/// The queue: its entries in dispatch order.
#[derive(Debug)]
pub struct DispatchQueueState {
    /// Queue entries in first-in first-out order.
    pub entries: Vec<DispatchQueueEntry>,
}

/// What each entry of a list holds.
pub open spec fn entry_views(entries: Seq<DispatchQueueEntry>) -> Seq<EntryView> {
    entries.map_values(|entry: DispatchQueueEntry| entry@)
}

impl View for DispatchQueueState {
    type V = Seq<EntryView>;

    open spec fn view(&self) -> Seq<EntryView> {
        entry_views(self.entries@)
    }
}

impl Default for DispatchQueueState {
    fn default() -> (state: Self)
        ensures
            state@ == Seq::<EntryView>::empty(),
    {
        let state = DispatchQueueState { entries: Vec::new() };
        assert(state@ =~= Seq::<EntryView>::empty());
        state
    }
}

impl Clone for DispatchQueueState {
    fn clone(&self) -> (copy: Self)
        ensures
            copy@ == self@,
    {
        let mut entries: Vec<DispatchQueueEntry> = Vec::new();
        let mut i: usize = 0;
        while i < self.entries.len()
            invariant
                i <= self.entries.len(),
                entries@.len() == i,
                forall|j: int| 0 <= j < i ==> (#[trigger] entries@[j])@ == self.entries@[j]@,
            decreases self.entries.len() - i,
        {
            entries.push(self.entries[i].clone());
            i += 1;
        }
        assert(entry_views(entries@) =~= self@);
        DispatchQueueState { entries }
    }
}

/// A pending entry fresh from an envelope.
pub open spec fn fresh_entry(
    dispatch: DispatchView,
    run_at: Option<Seq<char>>,
    expire_after_secs: Option<u64>,
    entry_id: Seq<char>,
    enqueued_at: Seq<char>,
) -> EntryView {
    EntryView {
        entry_id,
        subject_id: Some(dispatch.subject_key),
        task_id: match dispatch.task_id {
            Some(id) => id,
            None => Seq::empty(),
        },
        dispatch: Some(dispatch),
        status: DispatchQueueEntryStatus::Pending,
        workflow_id: None,
        enqueued_at: Some(enqueued_at),
        assigned_at: None,
        held_at: None,
        run_at,
        expire_after_secs,
        audit_log: Seq::empty(),
    }
}

/// The instant that an entry's `run_at` names, if it names one.
pub open spec fn run_instant(entry: EntryView) -> Option<(int, int)> {
    match entry.run_at {
        Some(raw) => instant_named(raw),
        None => None,
    }
}

/// Whether an entry must still wait for its `run_at`. A malformed `run_at`
/// makes no entry wait.
pub open spec fn is_deferred(entry: EntryView, now: (int, int)) -> bool {
    match run_instant(entry) {
        Some(run_at) => earlier(now, run_at),
        None => false,
    }
}

/// The instant after which a pending entry expires: its `run_at` and the
/// grace window together.
pub open spec fn expiry_instant(entry: EntryView) -> Option<(int, int)> {
    match (run_instant(entry), entry.expire_after_secs) {
        (Some(run_at), Some(secs)) => Some(seconds_after(run_at, secs as nat)),
        _ => None,
    }
}

/// The subject id under which an entry is tracked: the cached one where it is
/// not blank, else the envelope's, else the task id.
pub open spec fn effective_subject(entry: EntryView) -> Seq<char> {
    if entry.subject_id is Some && !is_blank(entry.subject_id->0) {
        trimmed(entry.subject_id->0)
    } else if entry.dispatch is Some {
        entry.dispatch->0.subject_id
    } else {
        entry.task_id
    }
}

/// The task id of an entry: the envelope's, else its own where that is not
/// blank.
pub open spec fn effective_task(entry: EntryView) -> Option<Seq<char>> {
    if entry.dispatch is Some && entry.dispatch->0.task_id is Some {
        entry.dispatch->0.task_id
    } else if !is_blank(entry.task_id) {
        Some(entry.task_id)
    } else {
        None
    }
}

/// When an entry expires.
#[derive(Debug, Clone, Copy, PartialEq, Eq, Structural)]
pub enum ExpiryWindow {
    /// The entry is not deferred, or has no grace window.
    Never,
    /// The entry expires after this instant.
    After(UtcInstant),
    /// The grace window runs past the end of the calendar.
    PastCalendar,
}

impl DispatchQueueEntry {
    /// A fresh pending entry with a new id, enqueued now. `run_at` and
    /// `expire_after_secs` are those of a deferred entry.
    pub fn from_dispatch(
        dispatch: SubjectDispatch,
        run_at: Option<String>,
        expire_after_secs: Option<u64>,
    ) -> (entry: Self)
        ensures
            exists|id: Seq<char>, now: UtcInstant|
                is_uuid_v4(id) && now.wf() && entry@ == #[trigger] fresh_entry(
                    dispatch@,
                    opt_text(run_at),
                    expire_after_secs,
                    id,
                    rfc3339_text(now.secs, now.nanos),
                ),
    {
        let id = fresh_uuid();
        let now = crate::clock::utc_now();
        let ghost id_text = id@;
        let entry = Self::from_dispatch_at(dispatch, run_at, expire_after_secs, id, now);
        assert(is_uuid_v4(id_text));
        entry
    }

    /// A fresh pending entry with the given id and enqueue instant.
    pub fn from_dispatch_at(
        dispatch: SubjectDispatch,
        run_at: Option<String>,
        expire_after_secs: Option<u64>,
        entry_id: String,
        now: UtcInstant,
    ) -> (entry: Self)
        requires
            now.wf(),
        ensures
            entry@ == fresh_entry(
                dispatch@,
                opt_text(run_at),
                expire_after_secs,
                entry_id@,
                rfc3339_text(now.secs, now.nanos),
            ),
    {
        let task_id = match &dispatch.task_id {
            Some(id) => id.clone(),
            None => String::new(),
        };
        let entry = DispatchQueueEntry {
            entry_id,
            subject_id: Some(dispatch.subject_key.clone()),
            task_id,
            dispatch: Some(dispatch),
            status: DispatchQueueEntryStatus::Pending,
            workflow_id: None,
            enqueued_at: Some(now.to_rfc3339()),
            assigned_at: None,
            held_at: None,
            run_at,
            expire_after_secs,
            audit_log: Vec::new(),
        };
        assert(entry@.audit_log =~= Seq::<AuditView>::empty());
        entry
    }

    /// Whether this entry is deferred and its `run_at` is still to come at
    /// `now`. A malformed `run_at` counts as reached.
    pub fn is_deferred_until_future(&self, now: UtcInstant) -> (deferred: bool)
        ensures
            deferred == is_deferred(self@, now@),
    {
        match self.parsed_run_at() {
            Some(run_at) => now.is_before(run_at),
            None => false,
        }
    }

    /// The instant that `run_at` names, if it is present and well-formed.
    pub fn parsed_run_at(&self) -> (instant: Option<UtcInstant>)
        ensures
            opt_instant(instant) == run_instant(self@),
            instant matches Some(t) ==> t.wf(),
    {
        match &self.run_at {
            Some(raw) => UtcInstant::parse_rfc3339(raw.as_str()),
            None => None,
        }
    }

    /// The instant after which this entry expires: `run_at` plus the grace
    /// window. `None` when the entry is not deferred or has no window. The
    /// instant must be one of the calendar; [`Self::expiry_window`] asks for
    /// nothing.
    pub fn expiry_deadline(&self) -> (deadline: Option<UtcInstant>)
        requires
            expiry_instant(self@) matches Some(t) ==> t.0 <= LAST_SECOND,
        ensures
            opt_instant(deadline) == expiry_instant(self@),
            deadline matches Some(t) ==> t.wf(),
    {
        match (self.parsed_run_at(), self.expire_after_secs) {
            (Some(run_at), Some(secs)) => Some(run_at.plus_seconds(secs)),
            _ => None,
        }
    }

    /// When this entry expires.
    pub fn expiry_window(&self) -> (window: ExpiryWindow)
        ensures
            match window {
                ExpiryWindow::Never => expiry_instant(self@) is None,
                ExpiryWindow::After(t) => t.wf() && expiry_instant(self@) == Some(t@),
                ExpiryWindow::PastCalendar => expiry_instant(self@) matches Some(t) && t.0
                    > LAST_SECOND,
            },
    {
        match (self.parsed_run_at(), self.expire_after_secs) {
            (Some(run_at), Some(secs)) => {
                if secs as i128 + run_at.secs as i128 > LAST_SECOND as i128 {
                    return ExpiryWindow::PastCalendar;
                }
            },
            _ => {},
        }
        match self.expiry_deadline() {
            Some(deadline) => ExpiryWindow::After(deadline),
            None => ExpiryWindow::Never,
        }
    }

    /// Effective subject id: the cached one, else the envelope's, else the
    /// task id.
    pub fn subject_id_ref(&self) -> (id: &str)
        ensures
            id@ == effective_subject(self@),
    {
        match &self.subject_id {
            Some(cached) => {
                let cached = cached.as_str().trim();
                if !cached.is_empty() {
                    return cached;
                }
            },
            None => {},
        }
        match &self.dispatch {
            Some(dispatch) => dispatch.subject_id.as_str(),
            None => self.task_id.as_str(),
        }
    }

    /// Effective task id. `None` when the subject is not a built-in task.
    pub fn task_id_ref(&self) -> (id: Option<&str>)
        ensures
            opt_str(id) == effective_task(self@),
    {
        match &self.dispatch {
            Some(dispatch) => {
                match &dispatch.task_id {
                    Some(id) => {
                        return Some(id.as_str());
                    },
                    None => {},
                }
            },
            None => {},
        }
        if self.task_id.as_str().trim().is_empty() {
            None
        } else {
            Some(self.task_id.as_str())
        }
    }
}

} // verus!
