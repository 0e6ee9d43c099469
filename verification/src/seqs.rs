//! Searching and filtering lists of queue entries.
use vstd::prelude::*;

use crate::dispatch_queue_state::DispatchQueueEntry;
#[allow(unused_imports)]
use crate::dispatch_queue_state::{entry_views, EntryView};

verus! {

/// The first index at which `p` holds, or the length of `s` where it holds
/// nowhere.
pub open spec fn first_where<A>(s: Seq<A>, p: spec_fn(A) -> bool) -> int
    decreases s.len(),
{
    if s.len() == 0 {
        0
    } else if p(s.first()) {
        0
    } else {
        1 + first_where(s.drop_first(), p)
    }
}

/// An index is the first one exactly when `p` holds there and nowhere before.
pub proof fn lemma_first_where<A>(s: Seq<A>, p: spec_fn(A) -> bool, i: int)
    requires
        0 <= i <= s.len(),
        forall|j: int| 0 <= j < i ==> !p(#[trigger] s[j]),
        i < s.len() ==> p(s[i]),
    ensures
        first_where(s, p) == i,
    decreases s.len(),
{
    if s.len() > 0 {
        if i == 0 {
            assert(p(s.first()));
        } else {
            assert(!p(s[0]));
            assert forall|j: int| 0 <= j < i - 1 implies !p(#[trigger] s.drop_first()[j]) by {
                assert(s.drop_first()[j] == s[j + 1]);
            }
            lemma_first_where(s.drop_first(), p, i - 1);
        }
    }
}

/// What the first index is.
pub proof fn lemma_first_where_is<A>(s: Seq<A>, p: spec_fn(A) -> bool)
    ensures
        0 <= first_where(s, p) <= s.len(),
        forall|j: int| 0 <= j < first_where(s, p) ==> !p(#[trigger] s[j]),
        first_where(s, p) < s.len() ==> p(s[first_where(s, p)]),
    decreases s.len(),
{
    if s.len() > 0 && !p(s.first()) {
        let rest = s.drop_first();
        lemma_first_where_is(rest, p);
        assert forall|j: int| 0 <= j < first_where(s, p) implies !p(#[trigger] s[j]) by {
            if j > 0 {
                assert(s[j] == rest[j - 1]);
            }
        }
        if first_where(s, p) < s.len() {
            assert(rest[first_where(rest, p)] == s[first_where(s, p)]);
        }
    }
}

/// Filtering one element more.
pub proof fn lemma_filter_take<A>(s: Seq<A>, p: spec_fn(A) -> bool, i: int)
    requires
        0 <= i < s.len(),
    ensures
        p(s[i]) ==> s.take(i + 1).filter(p) == s.take(i).filter(p).push(s[i]),
        !p(s[i]) ==> s.take(i + 1).filter(p) == s.take(i).filter(p),
        s.take(i).filter(p).len() <= i,
{
    reveal(Seq::filter);
    assert(s.take(i + 1).drop_last() =~= s.take(i));
    assert(s.take(i + 1).last() == s[i]);
    s.take(i).lemma_filter_len(p);
}

/// Filtering by what holds everywhere changes nothing.
pub proof fn lemma_filter_all<A>(s: Seq<A>, p: spec_fn(A) -> bool)
    requires
        forall|i: int| 0 <= i < s.len() ==> p(#[trigger] s[i]),
    ensures
        s.filter(p) == s,
    decreases s.len(),
{
    reveal(Seq::filter);
    if s.len() > 0 {
        assert(p(s[s.len() - 1]));
        assert forall|i: int| 0 <= i < s.drop_last().len() implies p(
            #[trigger] s.drop_last()[i],
        ) by {
            assert(s.drop_last()[i] == s[i]);
        }
        lemma_filter_all(s.drop_last(), p);
        assert(s.drop_last().push(s.last()) =~= s);
    }
}

/// A filter that drops nothing has kept every element.
pub proof fn lemma_filter_same_len<A>(s: Seq<A>, p: spec_fn(A) -> bool)
    requires
        s.filter(p).len() == s.len(),
    ensures
        s.filter(p) == s,
        forall|i: int| 0 <= i < s.len() ==> p(#[trigger] s[i]),
    decreases s.len(),
{
    reveal(Seq::filter);
    if s.len() > 0 {
        s.drop_last().lemma_filter_len(p);
        lemma_filter_same_len(s.drop_last(), p);
        assert forall|i: int| 0 <= i < s.len() implies p(#[trigger] s[i]) by {
            if i < s.len() - 1 {
                assert(s.drop_last()[i] == s[i]);
            }
        }
        assert(s.drop_last().push(s.last()) =~= s);
    }
}

/// Filtering twice is filtering by the stricter of the two.
pub proof fn lemma_filter_within<A>(s: Seq<A>, p: spec_fn(A) -> bool, q: spec_fn(A) -> bool)
    requires
        forall|i: int| 0 <= i < s.len() && q(#[trigger] s[i]) ==> p(s[i]),
    ensures
        s.filter(p).filter(q) == s.filter(q),
    decreases s.len(),
{
    reveal(Seq::filter);
    if s.len() > 0 {
        let rest = s.drop_last();
        assert forall|i: int| 0 <= i < rest.len() && q(#[trigger] rest[i]) implies p(rest[i]) by {
            assert(rest[i] == s[i]);
        }
        lemma_filter_within(rest, p, q);
        assert(s[s.len() - 1] == s.last());
        if p(s.last()) {
            assert(s.filter(p).drop_last() =~= rest.filter(p));
        }
    }
}

/// What a filter keeps was there before.
pub proof fn lemma_filter_from<A>(s: Seq<A>, p: spec_fn(A) -> bool, k: int) -> (i: int)
    requires
        0 <= k < s.filter(p).len(),
    ensures
        0 <= i < s.len(),
        s[i] == s.filter(p)[k],
        p(s[i]),
{
    s.lemma_filter_pred(p, k);
    assert(s.filter(p).contains(s.filter(p)[k]));
    s.lemma_filter_contains_rev(p, s.filter(p)[k]);
    s.index_of(s.filter(p)[k])
}

/// A filter keeps the elements at the indices where the condition holds, in
/// ascending order.
pub proof fn lemma_filter_at<A>(s: Seq<A>, p: spec_fn(A) -> bool) -> (at: Seq<int>)
    ensures
        at.len() == s.filter(p).len(),
        forall|k: int|
            0 <= k < at.len() ==> 0 <= #[trigger] at[k] < s.len() && s.filter(p)[k] == s[at[k]],
        forall|j: int, k: int| 0 <= j < k < at.len() ==> at[j] < at[k],
        forall|i: int| 0 <= i < s.len() ==> (#[trigger] at.contains(i) <==> p(s[i])),
    decreases s.len(),
{
    reveal(Seq::filter);
    if s.len() == 0 {
        Seq::empty()
    } else {
        let rest = s.drop_last();
        let fewer = lemma_filter_at(rest, p);
        let last = s.len() - 1;
        let at = if p(s.last()) {
            fewer.push(last)
        } else {
            fewer
        };
        assert forall|k: int| 0 <= k < at.len() implies 0 <= #[trigger] at[k] < s.len()
            && s.filter(p)[k] == s[at[k]] by {
            if k < fewer.len() {
                assert(at[k] == fewer[k]);
                assert(rest[fewer[k]] == s[fewer[k]]);
            }
        }
        assert forall|i: int| 0 <= i < s.len() implies (#[trigger] at.contains(i) <==> p(s[i])) by {
            if i < last {
                assert(rest[i] == s[i]);
                assert(fewer.contains(i) <==> p(rest[i]));
                if fewer.contains(i) {
                    let k = fewer.index_of(i);
                    assert(at[k] == i);
                }
                if at.contains(i) {
                    let k = at.index_of(i);
                    assert(fewer[k] == i);
                }
            } else if p(s.last()) {
                assert(at[fewer.len() as int] == i);
            } else if at.contains(i) {
                let k = at.index_of(i);
                assert(fewer[k] < rest.len());
            }
        }
        at
    }
}

/// Keeps the entries for which `keep` holds, in their order.
pub(crate) fn retain_entries(
    entries: &mut Vec<DispatchQueueEntry>,
    keep: impl Fn(&DispatchQueueEntry) -> bool,
    Ghost(p): Ghost<spec_fn(EntryView) -> bool>,
)
    requires
        forall|e: &DispatchQueueEntry| #[trigger] keep.requires((e,)),
        forall|e: &DispatchQueueEntry, b: bool|
            #[trigger] keep.ensures((e,), b) ==> b == p(e@),
    ensures
        entry_views(final(entries)@) == entry_views(old(entries)@).filter(p),
{
    let ghost s = entry_views(entries@);
    let ghost mut seen: int = 0;
    let mut i: usize = 0;
    assert(s.take(0).filter(p) + s.skip(0) =~= s) by {
        reveal(Seq::filter);
    }
    assert(s.take(0).filter(p).len() == 0) by {
        reveal(Seq::filter);
    }
    while i < entries.len()
        invariant
            forall|e: &DispatchQueueEntry| #[trigger] keep.requires((e,)),
            forall|e: &DispatchQueueEntry, b: bool|
                #[trigger] keep.ensures((e,), b) ==> b == p(e@),
            0 <= seen <= s.len(),
            i == s.take(seen).filter(p).len(),
            entry_views(entries@) == s.take(seen).filter(p) + s.skip(seen),
        decreases entries.len() - i,
    {
        let ghost before = entry_views(entries@);
        proof {
            assert(before.len() == entries@.len());
            assert(seen < s.len());
            assert(before[i as int] == s[seen]);
            lemma_filter_take(s, p, seen);
        }
        if keep(&entries[i]) {
            i += 1;
            assert(before =~= s.take(seen + 1).filter(p) + s.skip(seen + 1));
        } else {
            entries.remove(i);
            assert(entry_views(entries@) =~= before.remove(i as int));
            assert(before.remove(i as int) =~= s.take(seen + 1).filter(p) + s.skip(seen + 1));
        }
        proof {
            seen = seen + 1;
        }
    }
    proof {
        assert(entry_views(entries@).len() == entries@.len());
        assert(s.skip(seen).len() == 0);
        assert(s.take(seen) =~= s);
        assert(entry_views(entries@) =~= s.filter(p));
    }
}

/// The first index at which `wanted` holds, or the length of the list.
pub(crate) fn position(
    entries: &Vec<DispatchQueueEntry>,
    wanted: impl Fn(&DispatchQueueEntry) -> bool,
    Ghost(p): Ghost<spec_fn(EntryView) -> bool>,
) -> (index: usize)
    requires
        forall|e: &DispatchQueueEntry| #[trigger] wanted.requires((e,)),
        forall|e: &DispatchQueueEntry, b: bool|
            #[trigger] wanted.ensures((e,), b) ==> b == p(e@),
    ensures
        index <= entries@.len(),
        index == first_where(entry_views(entries@), p),
{
    let mut i: usize = 0;
    while i < entries.len()
        invariant
            forall|e: &DispatchQueueEntry| #[trigger] wanted.requires((e,)),
            forall|e: &DispatchQueueEntry, b: bool|
                #[trigger] wanted.ensures((e,), b) ==> b == p(e@),
            i <= entries.len(),
            forall|j: int| 0 <= j < i ==> !p(#[trigger] entry_views(entries@)[j]),
        decreases entries.len() - i,
    {
        if wanted(&entries[i]) {
            proof {
                assert(entry_views(entries@)[i as int] == entries@[i as int]@);
                lemma_first_where(entry_views(entries@), p, i as int);
            }
            return i;
        }
        assert(entry_views(entries@)[i as int] == entries@[i as int]@);
        i += 1;
    }
    proof {
        lemma_first_where(entry_views(entries@), p, i as int);
    }
    i
}

} // verus!
