//! Leasing: which entries a lease takes, and what it makes of them.
use vstd::prelude::*;
use vstd::string::*;

use crate::clock::UtcInstant;
#[allow(unused_imports)]
use crate::clock::{earlier, rfc3339_text};
#[allow(unused_imports)]
use crate::dispatch_queue_state::{expiry_instant, is_deferred, EntryView};
use crate::dispatch_queue_state::{
    DispatchQueueEntry, DispatchQueueEntryStatus, DispatchQueueState, ExpiryWindow,
};
use crate::queue_protocol::{entry_to_protocol, QueueEntry, QueueLeaseResponse};
#[allow(unused_imports)]
use crate::queue_protocol::{wire_entry, wire_views, WireEntryView};
use crate::seqs::retain_entries;
#[allow(unused_imports)]
use crate::seqs::lemma_filter_same_len;
use crate::text::{decimal_text, holds_text};
#[allow(unused_imports)]
use crate::text::{decimal, texts};

verus! {

/// The outcome of an operation on a loaded queue.
#[derive(Debug)]
pub struct Step<T> {
    /// The answer.
    pub reply: T,
    /// Whether the queue changed and has to be saved.
    pub persist: bool,
}

/// Why a lease was refused.
#[derive(Debug)]
pub enum QueueLeaseError {
    /// The number of workflow ids is not the number of entries asked for.
    WorkflowIdCountMismatch {
        /// Entries asked for.
        expected: usize,
        /// Workflow ids given.
        actual: usize,
    },
    /// The queue could not be read or written.
    Backend(String),
}

/// What happened, in words.
pub open spec fn lease_error_text(error: QueueLeaseError) -> Seq<char> {
    match error {
        QueueLeaseError::WorkflowIdCountMismatch { expected, actual } => "workflow_ids length "@
            + decimal(actual as nat) + " did not match max "@ + decimal(expected as nat),
        QueueLeaseError::Backend(error) => error@,
    }
}

impl QueueLeaseError {
    /// What happened, in words.
    pub fn message(&self) -> (text: String)
        ensures
            text@ == lease_error_text(*self),
    {
        match self {
            QueueLeaseError::WorkflowIdCountMismatch { expected, actual } => {
                "workflow_ids length ".to_owned().concat(decimal_text(*actual).as_str()).concat(
                    " did not match max ",
                ).concat(decimal_text(*expected).as_str())
            },
            QueueLeaseError::Backend(error) => error.clone(),
        }
    }
}

// ------------------------------------------------------------ expiry

/// Whether an entry is past its grace window at `now` and still pending.
pub open spec fn is_expired(entry: EntryView, now: (int, int)) -> bool {
    &&& entry.status == DispatchQueueEntryStatus::Pending
    &&& expiry_instant(entry) matches Some(deadline) && earlier(deadline, now)
}

/// The entries that stay when the queue is swept at `now`.
pub open spec fn survives(now: (int, int)) -> spec_fn(EntryView) -> bool {
    |entry: EntryView| !is_expired(entry, now)
}

/// The queue without its expired entries.
pub open spec fn swept(entries: Seq<EntryView>, now: (int, int)) -> Seq<EntryView> {
    entries.filter(survives(now))
}

/// Whether `entry` is expired at `now`.
pub fn entry_is_expired(entry: &DispatchQueueEntry, now: UtcInstant) -> (expired: bool)
    requires
        now.wf(),
    ensures
        expired == is_expired(entry@, now@),
{
    if entry.status != DispatchQueueEntryStatus::Pending {
        return false;
    }
    match entry.expiry_window() {
        ExpiryWindow::Never => false,
        ExpiryWindow::After(deadline) => deadline.is_before(now),
        ExpiryWindow::PastCalendar => false,
    }
}

/// Drops the expired entries. Tells whether there were any.
pub fn sweep_expired(state: &mut DispatchQueueState, now: UtcInstant) -> (dropped: bool)
    requires
        now.wf(),
    ensures
        final(state)@ == swept(old(state)@, now@),
        dropped == (final(state)@ != old(state)@),
{
    let before = state.entries.len();
    let ghost s = state@;
    let keep = |entry: &DispatchQueueEntry| -> (kept: bool)
        ensures
            kept == survives(now@)(entry@),
        { !entry_is_expired(entry, now) };
    retain_entries(&mut state.entries, keep, Ghost(survives(now@)));
    proof {
        s.lemma_filter_len(survives(now@));
        assert(state@.len() == state.entries@.len());
        if s.filter(survives(now@)).len() == s.len() {
            lemma_filter_same_len(s, survives(now@));
        }
    }
    state.entries.len() < before
}

// --------------------------------------------------------- selection

/// Whether an entry may be leased at `now`: it is pending, has an envelope,
/// and need not wait for its `run_at`.
pub open spec fn is_leasable(entry: EntryView, now: (int, int)) -> bool {
    &&& entry.status == DispatchQueueEntryStatus::Pending
    &&& entry.dispatch is Some
    &&& !is_deferred(entry, now)
}

/// The key of the subject that an entry dispatches.
pub open spec fn subject_key(entry: EntryView) -> Seq<char>
    recommends
        entry.dispatch is Some,
{
    entry.dispatch->0.subject_key
}

/// Whether a lease that has picked the entries at `picks` may also pick the
/// entry at `i`. With an exclusion list, no listed subject is picked, and no
/// subject twice.
pub open spec fn may_pick(
    entries: Seq<EntryView>,
    picks: Seq<int>,
    i: int,
    max: nat,
    exclude: Option<Seq<Seq<char>>>,
    now: (int, int),
) -> bool {
    &&& picks.len() < max
    &&& is_leasable(entries[i], now)
    &&& exclude matches Some(listed) ==> {
        &&& !listed.contains(subject_key(entries[i]))
        &&& forall|k: int|
            0 <= k < picks.len() ==> subject_key(entries[#[trigger] picks[k]]) != subject_key(
                entries[i],
            )
    }
}

/// The indices that a lease picks among the first `n` entries: in queue
/// order, each entry that may be picked after those before it.
pub open spec fn lease_picks(
    entries: Seq<EntryView>,
    n: int,
    max: nat,
    exclude: Option<Seq<Seq<char>>>,
    now: (int, int),
) -> Seq<int>
    decreases n,
{
    if n <= 0 {
        Seq::empty()
    } else {
        let picks = lease_picks(entries, n - 1, max, exclude, now);
        if may_pick(entries, picks, n - 1, max, exclude, now) {
            picks.push(n - 1)
        } else {
            picks
        }
    }
}

/// All indices that a lease picks.
pub open spec fn picked(
    entries: Seq<EntryView>,
    max: nat,
    exclude: Option<Seq<Seq<char>>>,
    now: (int, int),
) -> Seq<int> {
    lease_picks(entries, entries.len() as int, max, exclude, now)
}

/// Indices as integers.
pub open spec fn index_ints(indices: Seq<usize>) -> Seq<int> {
    indices.map_values(|i: usize| i as int)
}

/// The words behind an optional list.
pub open spec fn opt_texts(list: Option<Vec<String>>) -> Option<Seq<Seq<char>>> {
    match list {
        Some(list) => Some(texts(list@)),
        None => None,
    }
}

/// Picks are indices, in ascending order.
pub proof fn lemma_picks_ascend(
    entries: Seq<EntryView>,
    n: int,
    max: nat,
    exclude: Option<Seq<Seq<char>>>,
    now: (int, int),
)
    requires
        n <= entries.len(),
    ensures
        ({
            let picks = lease_picks(entries, n, max, exclude, now);
            &&& picks.len() <= max
            &&& n >= 0 ==> picks.len() <= n
            &&& forall|k: int| 0 <= k < picks.len() ==> 0 <= #[trigger] picks[k] < n
            &&& forall|j: int, k: int| 0 <= j < k < picks.len() ==> picks[j] < picks[k]
        }),
    decreases n,
{
    if n > 0 {
        lemma_picks_ascend(entries, n - 1, max, exclude, now);
    }
}

/// Every pick may be leased; with an exclusion list no pick is listed and no
/// two picks share a subject.
pub proof fn lemma_picks_leasable(
    entries: Seq<EntryView>,
    n: int,
    max: nat,
    exclude: Option<Seq<Seq<char>>>,
    now: (int, int),
)
    requires
        n <= entries.len(),
    ensures
        ({
            let picks = lease_picks(entries, n, max, exclude, now);
            &&& forall|k: int|
                0 <= k < picks.len() ==> is_leasable(entries[#[trigger] picks[k]], now)
            &&& exclude matches Some(listed) ==> {
                &&& forall|k: int|
                    0 <= k < picks.len() ==> !listed.contains(
                        subject_key(entries[#[trigger] picks[k]]),
                    )
                &&& forall|j: int, k: int|
                    0 <= j < k < picks.len() ==> subject_key(entries[#[trigger] picks[j]])
                        != subject_key(entries[#[trigger] picks[k]])
            }
        }),
    decreases n,
{
    if n > 0 {
        lemma_picks_leasable(entries, n - 1, max, exclude, now);
        let fewer = lease_picks(entries, n - 1, max, exclude, now);
        let picks = lease_picks(entries, n, max, exclude, now);
        assert(forall|k: int| 0 <= k < fewer.len() ==> fewer[k] == #[trigger] picks[k]);
    }
}

/// The indices that a lease at `now` picks.
pub fn select_leases(
    state: &DispatchQueueState,
    max: usize,
    exclude: &Option<Vec<String>>,
    now: UtcInstant,
) -> (picks: Vec<usize>)
    ensures
        index_ints(picks@) == picked(state@, max as nat, opt_texts(*exclude), now@),
{
    let ghost s = state@;
    let ghost ex = opt_texts(*exclude);
    let mut picks: Vec<usize> = Vec::new();
    let mut keys: Vec<String> = Vec::new();
    let mut i: usize = 0;
    assert(index_ints(picks@) =~= Seq::<int>::empty());
    while i < state.entries.len()
        invariant
            s == state@,
            ex == opt_texts(*exclude),
            i <= state.entries.len(),
            index_ints(picks@) == lease_picks(s, i as int, max as nat, ex, now@),
            keys@.len() == picks@.len(),
            forall|k: int|
                0 <= k < picks@.len() ==> (#[trigger] keys@[k])@ == subject_key(
                    s[picks@[k] as int],
                ),
        decreases state.entries.len() - i,
    {
        let ghost before = index_ints(picks@);
        let ghost keys_before = texts(keys@);
        let entry = &state.entries[i];
        assert(s[i as int] == entry@);
        let mut take = false;
        let mut key = String::new();
        if picks.len() < max && entry.status == DispatchQueueEntryStatus::Pending
            && !entry.is_deferred_until_future(now) {
            match &entry.dispatch {
                Some(dispatch) => {
                    key = dispatch.subject_key.clone();
                    take = match exclude {
                        Some(listed) => !holds_text(listed.as_slice(), key.as_str())
                            && !holds_text(keys.as_slice(), key.as_str()),
                        None => true,
                    };
                },
                None => {},
            }
        }
        proof {
            assert(before.len() == picks@.len());
            assert forall|k: int| 0 <= k < before.len() implies subject_key(
                s[#[trigger] before[k]],
            ) == keys_before[k] by {
                assert((keys@[k])@ == subject_key(s[picks@[k] as int]));
            }
            assert(take == may_pick(s, before, i as int, max as nat, ex, now@)) by {
                if picks@.len() < max && is_leasable(s[i as int], now@) && ex is Some
                    && !ex->0.contains(key@) {
                    if keys_before.contains(key@) {
                        let k = choose|k: int|
                            0 <= k < keys_before.len() && keys_before[k] == key@;
                        assert(subject_key(s[before[k]]) == key@);
                    } else {
                        assert forall|k: int| 0 <= k < before.len() implies subject_key(
                            s[#[trigger] before[k]],
                        ) != key@ by {
                            assert(keys_before[k] == subject_key(s[before[k]]));
                        }
                    }
                }
            }
        }
        if take {
            picks.push(i);
            keys.push(key);
            assert(index_ints(picks@) =~= before.push(i as int));
        }
        i += 1;
    }
    picks
}

// -------------------------------------------------------- assignment

/// An entry once it is leased to a workflow.
pub open spec fn assigned(entry: EntryView, workflow_id: Seq<char>, at: Seq<char>) -> EntryView {
    EntryView {
        status: DispatchQueueEntryStatus::Assigned,
        workflow_id: Some(workflow_id),
        assigned_at: Some(at),
        ..entry
    }
}

/// The queue once the entries at `picks` are leased, each to the workflow id
/// of the same rank.
pub open spec fn with_assigned(
    entries: Seq<EntryView>,
    picks: Seq<int>,
    ids: Seq<Seq<char>>,
    at: Seq<char>,
) -> Seq<EntryView> {
    Seq::new(
        entries.len(),
        |i: int|
            if picks.contains(i) {
                assigned(entries[i], ids[picks.index_of(i)], at)
            } else {
                entries[i]
            },
    )
}

/// How clients see the leased entries.
pub open spec fn leased_entries(
    entries: Seq<EntryView>,
    picks: Seq<int>,
    ids: Seq<Seq<char>>,
    at: Seq<char>,
) -> Seq<WireEntryView> {
    Seq::new(picks.len(), |k: int| wire_entry(assigned(entries[picks[k]], ids[k], at), at))
}

/// Whether indices ascend and stay below `n`.
pub open spec fn ascending(picks: Seq<int>, n: int) -> bool {
    &&& forall|k: int| 0 <= k < picks.len() ==> 0 <= #[trigger] picks[k] < n
    &&& forall|j: int, k: int| 0 <= j < k < picks.len() ==> picks[j] < picks[k]
}

/// Leasing one pick more.
pub proof fn lemma_assign_one(
    entries: Seq<EntryView>,
    picks: Seq<int>,
    ids: Seq<Seq<char>>,
    at: Seq<char>,
    k: int,
)
    requires
        ascending(picks, entries.len() as int),
        0 <= k < picks.len(),
    ensures
        with_assigned(entries, picks.take(k + 1), ids, at) == with_assigned(
            entries,
            picks.take(k),
            ids,
            at,
        ).update(picks[k], assigned(entries[picks[k]], ids[k], at)),
        with_assigned(entries, picks.take(k), ids, at)[picks[k]] == entries[picks[k]],
{
    let less = picks.take(k);
    let more = picks.take(k + 1);
    assert forall|i: int| 0 <= i < entries.len() implies (#[trigger] with_assigned(
        entries,
        more,
        ids,
        at,
    )[i]) == with_assigned(entries, less, ids, at).update(
        picks[k],
        assigned(entries[picks[k]], ids[k], at),
    )[i] by {
        if i == picks[k] {
            assert(more[k] == i);
            assert(more.contains(i));
            let r = more.index_of(i);
            assert(0 <= r < more.len() && more[r] == i);
            assert(picks[r] == picks[k]);
            assert(r == k);
        } else if less.contains(i) {
            let r = less.index_of(i);
            assert(0 <= r < less.len() && less[r] == i);
            assert(more[r] == i);
            assert(more.contains(i));
            let q = more.index_of(i);
            assert(0 <= q < more.len() && more[q] == i);
            assert(picks[q] == picks[r]);
            assert(q == r);
        } else if more.contains(i) {
            let q = more.index_of(i);
            assert(0 <= q < more.len() && more[q] == i);
            assert(less[q] == i);
        }
    }
    assert(with_assigned(entries, more, ids, at) =~= with_assigned(entries, less, ids, at).update(
        picks[k],
        assigned(entries[picks[k]], ids[k], at),
    ));
    if less.contains(picks[k]) {
        let r = less.index_of(picks[k]);
        assert(picks[r] == picks[k]);
    }
}

/// Leases the entries at `picks`, each to the workflow id of the same rank.
pub fn assign_leases(
    state: &mut DispatchQueueState,
    picks: &Vec<usize>,
    ids: &Vec<String>,
    now: UtcInstant,
) -> (leased: Vec<QueueEntry>)
    requires
        now.wf(),
        ascending(index_ints(picks@), old(state)@.len() as int),
        forall|k: int|
            0 <= k < picks@.len() ==> old(state)@[(#[trigger] picks@[k]) as int].dispatch is Some,
        picks@.len() <= ids@.len(),
    ensures
        final(state)@ == with_assigned(
            old(state)@,
            index_ints(picks@),
            texts(ids@),
            rfc3339_text(now.secs, now.nanos),
        ),
        wire_views(leased@) == leased_entries(
            old(state)@,
            index_ints(picks@),
            texts(ids@),
            rfc3339_text(now.secs, now.nanos),
        ),
{
    let ghost s = state@;
    let ghost ps = index_ints(picks@);
    let ghost ws = texts(ids@);
    let at = now.to_rfc3339();
    let mut leased: Vec<QueueEntry> = Vec::new();
    let mut k: usize = 0;
    assert(with_assigned(s, ps.take(0), ws, at@) =~= s);
    while k < picks.len()
        invariant
            now.wf(),
            at@ == rfc3339_text(now.secs, now.nanos),
            ps == index_ints(picks@),
            ws == texts(ids@),
            ascending(ps, s.len() as int),
            forall|k: int|
                0 <= k < picks@.len() ==> s[(#[trigger] picks@[k]) as int].dispatch is Some,
            picks@.len() <= ids@.len(),
            k <= picks@.len(),
            state@ == with_assigned(s, ps.take(k as int), ws, at@),
            leased@.len() == k,
            forall|j: int|
                0 <= j < k ==> (#[trigger] leased@[j])@ == wire_entry(
                    assigned(s[ps[j]], ws[j], at@),
                    at@,
                ),
        decreases picks.len() - k,
    {
        let i = picks[k];
        let ghost before = state@;
        proof {
            assert(ps[k as int] == i);
            lemma_assign_one(s, ps, ws, at@, k as int);
            assert(before.len() == s.len());
            assert(state.entries@[i as int]@ == before[i as int]);
            assert(ws[k as int] == ids@[k as int]@);
        }
        state.entries[i].status = DispatchQueueEntryStatus::Assigned;
        state.entries[i].workflow_id = Some(ids[k].clone());
        state.entries[i].assigned_at = Some(at.clone());
        assert(state.entries@[i as int]@ == assigned(s[i as int], ws[k as int], at@));
        assert(state@ =~= before.update(i as int, assigned(s[i as int], ws[k as int], at@)));
        match entry_to_protocol(&state.entries[i], now) {
            Some(shown) => {
                leased.push(shown);
            },
            None => {
                assert(false);
            },
        }
        k += 1;
    }
    assert(ps.take(k as int) =~= ps);
    assert(wire_views(leased@) =~= leased_entries(s, ps, ws, at@));
    leased
}

// ------------------------------------------------------------- lease

/// The queue after a lease of up to `max` entries. A lease of none does not
/// even sweep.
pub open spec fn after_lease(
    entries: Seq<EntryView>,
    max: nat,
    ids: Seq<Seq<char>>,
    exclude: Option<Seq<Seq<char>>>,
    now: UtcInstant,
) -> Seq<EntryView> {
    if max == 0 {
        entries
    } else {
        let left = swept(entries, now@);
        with_assigned(
            left,
            picked(left, max, exclude, now@),
            ids,
            rfc3339_text(now.secs, now.nanos),
        )
    }
}

/// What a lease of up to `max` entries answers.
pub open spec fn lease_reply(
    entries: Seq<EntryView>,
    max: nat,
    ids: Seq<Seq<char>>,
    exclude: Option<Seq<Seq<char>>>,
    now: UtcInstant,
) -> Seq<WireEntryView> {
    let left = swept(entries, now@);
    leased_entries(
        left,
        picked(left, max, exclude, now@),
        ids,
        rfc3339_text(now.secs, now.nanos),
    )
}

/// Refuses a lease whose workflow ids are not as many as the entries asked
/// for.
pub fn check_lease(max: usize, workflow_ids: &Option<Vec<String>>) -> (checked: Result<
    (),
    QueueLeaseError,
>)
    ensures
        match checked {
            Ok(_) => *workflow_ids matches Some(ids) ==> ids@.len() == max,
            Err(QueueLeaseError::WorkflowIdCountMismatch { expected, actual }) => {
                &&& *workflow_ids matches Some(ids) && ids@.len() == actual
                &&& expected == max
                &&& actual != max
            },
            Err(QueueLeaseError::Backend(_)) => false,
        },
{
    match workflow_ids {
        Some(ids) => {
            if ids.len() != max {
                return Err(
                    QueueLeaseError::WorkflowIdCountMismatch { expected: max, actual: ids.len() },
                );
            }
        },
        None => {},
    }
    Ok(())
}

/// Leases up to `max` entries at `now`, each to a workflow id of its rank.
/// The queue is swept first.
pub fn lease_at(
    state: &mut DispatchQueueState,
    max: usize,
    ids: &Vec<String>,
    exclude: &Option<Vec<String>>,
    now: UtcInstant,
) -> (step: Step<QueueLeaseResponse>)
    requires
        now.wf(),
        ids@.len() >= max || ids@.len() >= old(state)@.len(),
    ensures
        final(state)@ == after_lease(
            old(state)@,
            max as nat,
            texts(ids@),
            opt_texts(*exclude),
            now,
        ),
        wire_views(step.reply.leased@) == lease_reply(
            old(state)@,
            max as nat,
            texts(ids@),
            opt_texts(*exclude),
            now,
        ),
        step.reply.leased@.len() <= ids@.len(),
        step.persist == (max > 0 && (swept(old(state)@, now@) != old(state)@
            || step.reply.leased@.len() > 0)),
{
    let ghost s = state@;
    let ghost ex = opt_texts(*exclude);
    proof {
        lemma_picks_ascend(swept(s, now@), swept(s, now@).len() as int, max as nat, ex, now@);
        lemma_picks_leasable(swept(s, now@), swept(s, now@).len() as int, max as nat, ex, now@);
        s.lemma_filter_len(survives(now@));
    }
    if max == 0 {
        let leased: Vec<QueueEntry> = Vec::new();
        assert(wire_views(leased@) =~= lease_reply(s, 0, texts(ids@), ex, now));
        return Step { reply: QueueLeaseResponse { leased }, persist: false };
    }
    let dropped = sweep_expired(state, now);
    let picks = select_leases(state, max, exclude, now);
    proof {
        let ps = index_ints(picks@);
        assert(ps.len() == picks@.len());
        assert forall|k: int| 0 <= k < picks@.len() implies state@[(
        #[trigger] picks@[k]) as int].dispatch is Some by {
            assert(ps[k] == picks@[k]);
            assert(is_leasable(state@[ps[k]], now@));
        }
    }
    let leased = assign_leases(state, &picks, ids, now);
    assert(wire_views(leased@).len() == leased@.len());
    let persist = dropped || leased.len() > 0;
    Step { reply: QueueLeaseResponse { leased }, persist }
}

} // verus!
