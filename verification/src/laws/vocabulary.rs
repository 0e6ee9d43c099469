//! What the words mean in which the queue is described.
use vstd::prelude::*;

use crate::clock::{
    earlier, instant_named, on_calendar, opt_instant, rfc3339_parts, UtcInstant,
};
use crate::dispatch_queue_state::{
    effective_subject, effective_task, entry_views, expiry_instant, is_deferred, run_instant,
    wire_status, DispatchQueueAuditEntry, DispatchQueueEntry, DispatchQueueEntryStatus,
    DispatchQueueState, EntryView,
};
use crate::leasing::{ascending, index_ints, opt_texts};
use crate::mutations::{EntryMutation, MutationView};
use crate::queue_protocol::{opt_wire, wire_views, QueueEntry};
use crate::rpc::{plain_failure, reports, DetailView, ErrorCode, ErrorData, RpcError};
use crate::seqs::{first_where, lemma_first_where_is};
use crate::subject::SubjectDispatch;
use crate::text::{
    decimal, digit_text, is_blank, is_white_space, opt_str, opt_text, texts, trimmed,
};

verus! {

// --------------------------------------------------------------- texts

/// A list of texts has the texts of the list, each at its place.
pub proof fn law_texts_are_the_strings(list: Seq<String>, k: int)
    ensures
        texts(list).len() == list.len(),
        0 <= k < list.len() ==> texts(list)[k] == list[k]@,
{
}

/// An optional text is there exactly where the string is, and is its text.
pub proof fn law_optional_texts_are_the_strings(
    string: Option<String>,
    slice: Option<&str>,
    list: Option<Vec<String>>,
)
    ensures
        string is None <==> opt_text(string) is None,
        string matches Some(s) ==> opt_text(string) == Some(s@),
        slice is None <==> opt_str(slice) is None,
        slice matches Some(s) ==> opt_str(slice) == Some(s@),
        list is None <==> opt_texts(list) is None,
        list matches Some(l) ==> {
            &&& opt_texts(list)->0.len() == l@.len()
            &&& forall|k: int| 0 <= k < l@.len() ==> #[trigger] opt_texts(list)->0[k] == l@[k]@
        },
{
}

/// Trimming takes white space off both ends, and nothing else. The result is
/// where what is left starts and ends.
pub proof fn law_trimming_takes_white_space_off_both_ends(s: Seq<char>) -> (kept: (int, int))
    ensures
        0 <= kept.0 <= kept.1 <= s.len(),
        trimmed(s) == s.subrange(kept.0, kept.1),
        forall|i: int| 0 <= i < kept.0 ==> is_white_space(#[trigger] s[i]),
        forall|i: int| kept.1 <= i < s.len() ==> is_white_space(#[trigger] s[i]),
        kept.0 < kept.1 ==> !is_white_space(s[kept.0]) && !is_white_space(s[kept.1 - 1]),
    decreases s.len(),
{
    if s.len() == 0 {
        (0, 0)
    } else if is_white_space(s.first()) {
        let rest = s.drop_first();
        let kept = law_trimming_takes_white_space_off_both_ends(rest);
        assert(forall|i: int| 0 < i < s.len() ==> #[trigger] s[i] == rest[i - 1]);
        assert(rest.subrange(kept.0, kept.1) =~= s.subrange(kept.0 + 1, kept.1 + 1));
        (kept.0 + 1, kept.1 + 1)
    } else if is_white_space(s.last()) {
        let rest = s.drop_last();
        let kept = law_trimming_takes_white_space_off_both_ends(rest);
        assert(forall|i: int| 0 <= i < rest.len() ==> #[trigger] s[i] == rest[i]);
        assert(rest.subrange(kept.0, kept.1) =~= s.subrange(kept.0, kept.1));
        kept
    } else {
        assert(s.subrange(0, s.len() as int) =~= s);
        (0, s.len() as int)
    }
}

/// A text is blank exactly when it is white space throughout.
pub proof fn law_a_blank_text_is_white_space(s: Seq<char>)
    ensures
        is_blank(s) <==> forall|i: int| 0 <= i < s.len() ==> is_white_space(#[trigger] s[i]),
{
    let kept = law_trimming_takes_white_space_off_both_ends(s);
    if kept.0 < kept.1 {
        assert(!is_white_space(s[kept.0]));
    }
}

/// A number is written with its last digit behind the digits of its tenth; a
/// number below ten is one digit.
pub proof fn law_decimals_are_positional(n: nat)
    ensures
        n < 10 ==> decimal(n) == seq![(48 + n) as char],
        n >= 10 ==> decimal(n) == decimal(n / 10).push((48 + n % 10) as char),
{
    reveal_strlit("0");
    reveal_strlit("1");
    reveal_strlit("2");
    reveal_strlit("3");
    reveal_strlit("4");
    reveal_strlit("5");
    reveal_strlit("6");
    reveal_strlit("7");
    reveal_strlit("8");
    reveal_strlit("9");
    let d = n % 10;
    assert(digit_text(d) =~= seq![(48 + d) as char]);
    if n < 10 {
        assert(d == n);
    }
}

// -------------------------------------------------------------- indices

/// The first place where a condition holds is one where it holds, with none
/// before it; it is the length of the list where it holds nowhere.
pub proof fn law_the_first_place_has_none_before_it<A>(s: Seq<A>, p: spec_fn(A) -> bool)
    ensures
        0 <= first_where(s, p) <= s.len(),
        first_where(s, p) < s.len() ==> p(s[first_where(s, p)]),
        forall|i: int| 0 <= i < first_where(s, p) ==> !p(#[trigger] s[i]),
{
    lemma_first_where_is(s, p);
}

/// Indices are seen as the numbers that they are, each at its place, and they
/// ascend exactly where each is below the next and the last below the bound.
pub proof fn law_indices_are_seen_as_they_are(list: Seq<usize>, k: int, picks: Seq<int>, n: int)
    ensures
        index_ints(list).len() == list.len(),
        0 <= k < list.len() ==> index_ints(list)[k] == list[k],
        ascending(picks, n) <==> {
            &&& forall|j: int, k: int| 0 <= j < k < picks.len() ==> picks[j] < picks[k]
            &&& picks.len() > 0 ==> 0 <= picks[0] && picks[picks.len() - 1] < n
        },
{
    if picks.len() > 0 && (forall|j: int, k: int|
        0 <= j < k < picks.len() ==> picks[j] < picks[k]) && 0 <= picks[0] && picks[picks.len() - 1]
        < n {
        assert forall|k: int| 0 <= k < picks.len() implies 0 <= #[trigger] picks[k] < n by {
            assert(k == 0 || picks[0] < picks[k]);
            assert(k == picks.len() - 1 || picks[k] < picks[picks.len() - 1]);
        }
    }
}

// --------------------------------------------------------------- views

/// An envelope is seen as it is.
pub proof fn law_an_envelope_is_seen_as_it_is(dispatch: SubjectDispatch)
    ensures
        dispatch@.subject_key == dispatch.subject_key@,
        dispatch@.subject_id == dispatch.subject_id@,
        dispatch@.task_id == opt_text(dispatch.task_id),
        dispatch@.workflow_ref == dispatch.workflow_ref@,
        dispatch@.envelope == dispatch.envelope@,
{
}

/// An entry is seen as it is, with each row of its audit log.
pub proof fn law_an_entry_is_seen_as_it_is(entry: DispatchQueueEntry)
    ensures
        entry@.entry_id == entry.entry_id@,
        entry@.subject_id == opt_text(entry.subject_id),
        entry@.task_id == entry.task_id@,
        entry@.dispatch is None <==> entry.dispatch is None,
        entry.dispatch matches Some(dispatch) ==> entry@.dispatch == Some(dispatch@),
        entry@.status == entry.status,
        entry@.workflow_id == opt_text(entry.workflow_id),
        entry@.enqueued_at == opt_text(entry.enqueued_at),
        entry@.assigned_at == opt_text(entry.assigned_at),
        entry@.held_at == opt_text(entry.held_at),
        entry@.run_at == opt_text(entry.run_at),
        entry@.expire_after_secs == entry.expire_after_secs,
        entry@.audit_log.len() == entry.audit_log@.len(),
        forall|k: int|
            0 <= k < entry.audit_log@.len() ==> #[trigger] entry@.audit_log[k]
                == entry.audit_log@[k]@,
{
}

/// An audit row is seen as it is.
pub proof fn law_an_audit_row_is_seen_as_it_is(row: DispatchQueueAuditEntry)
    ensures
        row@.at == row.at@,
        row@.method == row.method@,
        row@.from_status == row.from_status@,
        row@.to_status == row.to_status@,
        row@.reason == row.reason@,
{
}

/// A queue is seen as its entries, each at its place.
pub proof fn law_a_queue_is_seen_entry_by_entry(state: DispatchQueueState, k: int)
    ensures
        state@.len() == state.entries@.len(),
        entry_views(state.entries@) == state@,
        0 <= k < state.entries@.len() ==> state@[k] == state.entries@[k]@,
{
}

/// An answered entry is seen as it is, alone, as an option and in a list.
pub proof fn law_an_answered_entry_is_seen_as_it_is(
    entry: QueueEntry,
    option: Option<QueueEntry>,
    list: Seq<QueueEntry>,
    k: int,
)
    ensures
        entry@.entry_id == entry.entry_id@,
        entry@.subject_id == entry.subject_id@,
        entry@.task_id == opt_text(entry.task_id),
        entry@.subject_dispatch == entry.subject_dispatch@,
        entry@.status == entry.status@,
        entry@.workflow_id == opt_text(entry.workflow_id),
        entry@.enqueued_at == entry.enqueued_at@,
        entry@.assigned_at == opt_text(entry.assigned_at),
        entry@.held_at == opt_text(entry.held_at),
        option is None <==> opt_wire(option) is None,
        option matches Some(shown) ==> opt_wire(option) == Some(shown@),
        wire_views(list).len() == list.len(),
        0 <= k < list.len() ==> wire_views(list)[k] == list[k]@,
{
}

/// A change is seen as it is.
pub proof fn law_a_change_is_seen_as_it_is(mutation: EntryMutation)
    ensures
        match mutation {
            EntryMutation::Hold { at } => mutation@ == (MutationView::Hold { at: at@ }),
            EntryMutation::Release => mutation@ == MutationView::Release,
            EntryMutation::Assign { workflow_id, fallback, at } => mutation@ == (
            MutationView::Assign {
                workflow_id: opt_text(workflow_id),
                fallback: fallback@,
                at: at@,
            }),
        },
{
}

/// A failure is seen as it is; a plain one has no detail.
pub proof fn law_a_failure_is_seen_as_it_is(error: RpcError, code: ErrorCode, message: Seq<char>)
    ensures
        error@.code == error.code,
        error@.message == error.message@,
        error@.data is None <==> error.data is None,
        error.data matches Some(ErrorData::WorkflowIdCount { expected, actual }) ==> error@.data
            == Some(
            DetailView::WorkflowIdCount { expected: expected as nat, actual: actual as nat },
        ),
        error.data matches Some(ErrorData::ActualState(state)) ==> error@.data == Some(
            DetailView::ActualState(state@),
        ),
        plain_failure(code, message).code == code,
        plain_failure(code, message).message == message,
        plain_failure(code, message).data is None,
        reports(error, code, message) <==> error.code == code && error.message@ == message
            && error.data is None,
{
}

/// The wire form of each status.
pub proof fn law_the_wire_form_of_a_status(status: DispatchQueueEntryStatus)
    ensures
        wire_status(status) == match status {
            DispatchQueueEntryStatus::Pending => "pending"@,
            DispatchQueueEntryStatus::Assigned => "assigned"@,
            DispatchQueueEntryStatus::Held => "held"@,
            DispatchQueueEntryStatus::Unknown => "unknown"@,
        },
{
}

// --------------------------------------------------------------- times

/// Instants are ordered by their seconds and then by their nanoseconds.
pub proof fn law_instants_are_ordered_by_seconds_first(a: UtcInstant, b: UtcInstant)
    ensures
        a@ == (a.secs as int, a.nanos as int),
        a.wf() <==> on_calendar(a.secs as int, a.nanos as int),
        a.secs < b.secs ==> earlier(a@, b@),
        a.secs > b.secs ==> !earlier(a@, b@),
        a.secs == b.secs ==> (earlier(a@, b@) <==> a.nanos < b.nanos),
        earlier(a@, b@) || earlier(b@, a@) || a == b,
{
}

/// The instant that a text names is the one that is read from it.
pub proof fn law_a_text_names_what_is_read_from_it(raw: Seq<char>, t: Option<UtcInstant>)
    ensures
        instant_named(raw) is None <==> rfc3339_parts(raw) is None,
        rfc3339_parts(raw) matches Some(p) ==> instant_named(raw) == Some((p.0 as int, p.1 as int)),
        t is None <==> opt_instant(t) is None,
        t matches Some(t) ==> opt_instant(Some(t)) == Some((t.secs as int, t.nanos as int)),
{
}

/// An entry has to wait exactly where its `run_at` names an instant after
/// `now`.
pub proof fn law_an_entry_waits_for_its_run_time(entry: EntryView, now: UtcInstant)
    ensures
        is_deferred(entry, now@) <==> {
            &&& entry.run_at matches Some(raw)
            &&& rfc3339_parts(raw) matches Some(run)
            &&& now.secs < run.0 || now.secs == run.0 && now.nanos < run.1
        },
{
}

/// An entry has a deadline exactly where its `run_at` names an instant and it
/// has a grace window: the window counts in seconds from that instant, and
/// a leap second is left behind.
pub proof fn law_a_deadline_is_the_run_time_and_the_window(entry: EntryView)
    ensures
        match entry.run_at {
            Some(raw) => match rfc3339_parts(raw) {
                Some(run) => {
                    &&& run_instant(entry) == Some((run.0 as int, run.1 as int))
                    &&& entry.expire_after_secs is None <==> expiry_instant(entry) is None
                    &&& entry.expire_after_secs matches Some(window) ==> expiry_instant(entry)
                        == Some(
                        (
                            run.0 + window,
                            if window > 0 && run.1 >= 1_000_000_000 {
                                run.1 - 1_000_000_000
                            } else {
                                run.1 as int
                            },
                        ),
                    )
                },
                None => run_instant(entry) is None && expiry_instant(entry) is None,
            },
            None => run_instant(entry) is None && expiry_instant(entry) is None,
        },
{
}

// ------------------------------------------------------------ subjects

/// An entry is tracked under its cached subject id, trimmed, where that is not
/// blank; else under the subject id of its envelope; else under its task id.
pub proof fn law_an_entry_is_tracked_under_its_cached_subject(entry: EntryView)
    ensures
        match entry.subject_id {
            Some(cached) => trimmed(cached).len() > 0 ==> effective_subject(entry) == trimmed(
                cached,
            ),
            None => true,
        },
        (entry.subject_id matches Some(cached) ==> trimmed(cached).len() == 0)
            ==> effective_subject(entry) == match entry.dispatch {
            Some(dispatch) => dispatch.subject_id,
            None => entry.task_id,
        },
{
}

/// An entry's task is that of its envelope; without one there, its own, where
/// that is not blank; else it has none.
pub proof fn law_an_entry_has_the_task_of_its_envelope(entry: EntryView)
    ensures
        match entry.dispatch {
            Some(dispatch) => dispatch.task_id matches Some(task) ==> effective_task(entry) == Some(
                task,
            ),
            None => true,
        },
        (entry.dispatch matches Some(dispatch) ==> dispatch.task_id is None) ==> {
            &&& trimmed(entry.task_id).len() > 0 ==> effective_task(entry) == Some(entry.task_id)
            &&& trimmed(entry.task_id).len() == 0 ==> effective_task(entry) is None
        },
{
}

} // verus!
