//! Laws of listing page by page.
use vstd::prelude::*;

use crate::clock::{rfc3339_text, UtcInstant};
use crate::dispatch_queue_state::EntryView;
use crate::listing::{has_status_in, page, showable, shown};
use crate::queue_protocol::{wire_entry, wire_views, QueueListResponse, WireEntryView};
use crate::queue_service::listed_at;
use crate::seqs::lemma_filter_from;

verus! {

/// Pages follow each other without gap or overlap.
pub proof fn law_pages_join<A>(list: Seq<A>, offset: usize, limit: usize, more: usize)
    requires
        limit + more <= usize::MAX,
    ensures
        page(list, offset as nat, Some(limit)) + page(list, (offset + limit) as nat, Some(more))
            == page(list, offset as nat, Some((limit + more) as usize)),
        page(list, offset as nat, Some(limit)) + page(list, (offset + limit) as nat, None) == page(
            list,
            offset as nat,
            None,
        ),
{
    assert(page(list, offset as nat, Some(limit)) + page(
        list,
        (offset + limit) as nat,
        Some(more),
    ) =~= page(list, offset as nat, Some((limit + more) as usize)));
    assert(page(list, offset as nat, Some(limit)) + page(list, (offset + limit) as nat, None)
        =~= page(list, offset as nat, None));
}

/// The first `n` pages of `limit` members each, one after the other.
pub open spec fn in_pages<A>(list: Seq<A>, limit: usize, n: nat) -> Seq<A>
    decreases n,
{
    if n == 0 {
        Seq::empty()
    } else {
        in_pages(list, limit, (n - 1) as nat) + page(
            list,
            ((n - 1) * limit) as nat,
            Some(limit),
        )
    }
}

proof fn lemma_in_pages<A>(list: Seq<A>, limit: usize, n: nat)
    ensures
        in_pages(list, limit, n) == if n * limit < list.len() {
            list.take(n * limit)
        } else {
            list
        },
    decreases n,
{
    if n == 0 {
        assert(0 * limit == 0) by (nonlinear_arith);
        assert(in_pages(list, limit, n) =~= list.take(0));
        if list.len() == 0 {
            assert(in_pages(list, limit, n) =~= list);
        }
    } else {
        let fewer = (n - 1) as nat;
        lemma_in_pages(list, limit, fewer);
        assert(n * limit == fewer * limit + limit) by (nonlinear_arith)
            requires
                n == fewer + 1,
        ;
        assert(0 <= fewer * limit) by (nonlinear_arith);
        assert(in_pages(list, limit, n) =~= if n * limit < list.len() {
            list.take(n * limit)
        } else {
            list
        });
    }
}

/// All pages, one after the other, are the whole list.
pub proof fn law_all_pages_are_the_whole_list<A>(list: Seq<A>, limit: usize, n: nat)
    requires
        n * limit >= list.len(),
    ensures
        in_pages(list, limit, n) == page(list, 0, None),
        page(list, 0, None) == list,
{
    lemma_in_pages(list, limit, n);
    assert(page(list, 0, None) =~= list);
}

/// The entries that the first `n` of `pages` show, one page after the other.
pub open spec fn shown_in_pages(pages: Seq<QueueListResponse>, n: int) -> Seq<WireEntryView>
    decreases n,
{
    if n <= 0 {
        Seq::empty()
    } else {
        shown_in_pages(pages, n - 1) + wire_views(pages[n - 1].entries@)
    }
}

/// Whether every entry knows when it was enqueued.
pub open spec fn all_dated(entries: Seq<EntryView>) -> bool {
    forall|i: int| 0 <= i < entries.len() ==> (#[trigger] entries[i]).enqueued_at is Some
}

/// Whether `response` lists page `j` of `limit` entries each, at `now`.
pub open spec fn lists_page(
    entries: Seq<EntryView>,
    statuses: Seq<Seq<char>>,
    limit: usize,
    j: int,
    now: UtcInstant,
    response: QueueListResponse,
) -> bool {
    &&& 0 <= j * limit <= usize::MAX
    &&& listed_at(entries, statuses, Some(limit), Some((j * limit) as usize), now, response)
    &&& response.total == entries.filter(has_status_in(statuses)).len()
}

proof fn lemma_shown_any_time(entries: Seq<EntryView>, at: Seq<char>, later: Seq<char>)
    requires
        all_dated(entries),
    ensures
        shown(entries, at) == shown(entries, later),
{
    let kept = entries.filter(showable());
    assert forall|k: int| 0 <= k < kept.len() implies wire_entry(#[trigger] kept[k], at)
        == wire_entry(kept[k], later) by {
        let i = lemma_filter_from(entries, showable(), k);
        assert(entries[i].enqueued_at is Some);
    }
    assert(shown(entries, at) =~= shown(entries, later));
}

proof fn lemma_shown_together(a: Seq<EntryView>, b: Seq<EntryView>, at: Seq<char>)
    ensures
        shown(a + b, at) == shown(a, at) + shown(b, at),
{
    Seq::filter_distributes_over_add(a, b, showable());
    assert(shown(a + b, at) =~= shown(a, at) + shown(b, at));
}

proof fn lemma_shown_in_pages(
    entries: Seq<EntryView>,
    statuses: Seq<Seq<char>>,
    limit: usize,
    pages: Seq<QueueListResponse>,
    nows: Seq<UtcInstant>,
    n: int,
    at: Seq<char>,
)
    requires
        all_dated(entries.filter(has_status_in(statuses))),
        0 <= n <= pages.len(),
        forall|j: int|
            0 <= j < n ==> lists_page(entries, statuses, limit, j, nows[j], #[trigger] pages[j]),
    ensures
        shown_in_pages(pages, n) == shown(
            in_pages(entries.filter(has_status_in(statuses)), limit, n as nat),
            at,
        ),
    decreases n,
{
    let list = entries.filter(has_status_in(statuses));
    if n == 0 {
        reveal(Seq::filter);
        assert(in_pages(list, limit, 0).filter(showable()) =~= Seq::<EntryView>::empty());
        assert(shown(in_pages(list, limit, 0), at) =~= Seq::<WireEntryView>::empty());
    } else {
        lemma_shown_in_pages(entries, statuses, limit, pages, nows, n - 1, at);
        let j = n - 1;
        assert(lists_page(entries, statuses, limit, j, nows[j], pages[j]));
        let this = page(list, (j * limit) as nat, Some(limit));
        assert forall|i: int| 0 <= i < this.len() implies (
        #[trigger] this[i]).enqueued_at is Some by {
            assert(this[i] == list[j * limit + i]);
        }
        lemma_shown_any_time(this, rfc3339_text(nows[j].secs, nows[j].nanos), at);
        lemma_shown_together(in_pages(list, limit, j as nat), this, at);
    }
}

/// Listing an unchanged queue page by page, from the first page to the last,
/// shows what listing it at once shows: no entry is lost, repeated or out of
/// order. Every page tells the same total and the same counts; what is
/// deferred is counted at the time of each page. An entry that does not know
/// when it was enqueued is left out: it shows the time of each answer.
pub proof fn law_all_pages_are_the_whole_listing(
    entries: Seq<EntryView>,
    statuses: Seq<Seq<char>>,
    limit: usize,
    pages: Seq<QueueListResponse>,
    nows: Seq<UtcInstant>,
    whole: QueueListResponse,
    now: UtcInstant,
)
    requires
        all_dated(entries.filter(has_status_in(statuses))),
        pages.len() * limit >= entries.filter(has_status_in(statuses)).len(),
        forall|j: int|
            0 <= j < pages.len() ==> lists_page(
                entries,
                statuses,
                limit,
                j,
                nows[j],
                #[trigger] pages[j],
            ),
        listed_at(entries, statuses, None, None, now, whole),
        whole.total == entries.filter(has_status_in(statuses)).len(),
    ensures
        shown_in_pages(pages, pages.len() as int) == wire_views(whole.entries@),
        forall|j: int|
            0 <= j < pages.len() ==> {
                &&& (#[trigger] pages[j]).total == whole.total
                &&& pages[j].stats.total == whole.stats.total
                &&& pages[j].stats.pending == whole.stats.pending
                &&& pages[j].stats.assigned == whole.stats.assigned
                &&& pages[j].stats.held == whole.stats.held
                &&& nows[j] == now ==> pages[j].stats == whole.stats
            },
{
    let list = entries.filter(has_status_in(statuses));
    let at = rfc3339_text(now.secs, now.nanos);
    lemma_shown_in_pages(
        entries,
        statuses,
        limit,
        pages,
        nows,
        pages.len() as int,
        at,
    );
    law_all_pages_are_the_whole_list(list, limit, pages.len());
}

} // verus!
