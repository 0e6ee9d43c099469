//! Laws of the input stream: how it is cut and spaced makes no difference.
use vstd::prelude::*;

use crate::frames::{
    after_parse, dispatched_value, fits, is_ascii_space, newline, peeled, step_after, visible_byte,
    without_leading_space, FrameStep, ParseOutcome,
};
use crate::seqs::{first_where, lemma_first_where, lemma_first_where_is};

verus! {

/// Whether `bytes` starts with something else than white space.
pub open spec fn starts_visibly(bytes: Seq<u8>) -> bool {
    bytes.len() > 0 && !is_ascii_space(bytes[0])
}

/// Whether a parser reads from the front and never changes its mind: a frame
/// fits the bytes, and what it found to be a frame or to be invalid it finds
/// again when more bytes follow.
pub open spec fn is_steady<T>(parse: spec_fn(Seq<u8>) -> (ParseOutcome, Option<T>)) -> bool {
    &&& forall|bytes: Seq<u8>| #![trigger parse(bytes)] fits(bytes, parse(bytes).0)
    &&& forall|bytes: Seq<u8>, more: Seq<u8>|
        #![trigger parse(bytes + more)]
        starts_visibly(bytes) && (parse(bytes).0 is Frame || parse(bytes).0 is Invalid) ==> parse(
            bytes + more,
        ) == parse(bytes)
}

/// What is dispatched and left over after the first `n` of `reads`, each of
/// which is added to what was left over before it.
pub open spec fn served<T>(
    parse: spec_fn(Seq<u8>) -> (ParseOutcome, Option<T>),
    reads: Seq<Seq<u8>>,
    n: int,
) -> (Seq<T>, Seq<u8>)
    decreases n,
{
    if n <= 0 {
        (Seq::empty(), Seq::empty())
    } else {
        let before = served(parse, reads, n - 1);
        let now = peeled(parse, before.1 + reads[n - 1]);
        (before.0 + now.0, now.1)
    }
}

/// The first `n` of `reads` together.
pub open spec fn joined(reads: Seq<Seq<u8>>, n: int) -> Seq<u8>
    decreases n,
{
    if n <= 0 {
        Seq::empty()
    } else {
        joined(reads, n - 1) + reads[n - 1]
    }
}

/// Whether `bytes` is white space throughout.
pub open spec fn is_gap(bytes: Seq<u8>) -> bool {
    forall|i: int| 0 <= i < bytes.len() ==> is_ascii_space(#[trigger] bytes[i])
}

/// Frames from the `k`-th on, each after its gap, and a last gap behind them.
pub open spec fn spaced_from(gaps: Seq<Seq<u8>>, frames: Seq<Seq<u8>>, k: int) -> Seq<u8>
    decreases frames.len() - k,
{
    if k >= frames.len() {
        gaps[k]
    } else {
        gaps[k] + (frames[k] + spaced_from(gaps, frames, k + 1))
    }
}

/// Whether `frames` are complete frames that carry `values`, in order.
pub open spec fn carries<T>(
    parse: spec_fn(Seq<u8>) -> (ParseOutcome, Option<T>),
    frames: Seq<Seq<u8>>,
    values: Seq<T>,
) -> bool {
    &&& frames.len() == values.len()
    &&& forall|k: int|
        #![trigger frames[k]]
        0 <= k < frames.len() ==> {
            &&& starts_visibly(frames[k])
            &&& parse(frames[k]).0 matches ParseOutcome::Frame { consumed } && consumed
                == frames[k].len()
            &&& parse(frames[k]).1 == Some(values[k])
        }
}

/// Whether `stream` is made of frames that carry `values`, with nothing but
/// white space before, between and behind them.
pub open spec fn is_stream_of<T>(
    parse: spec_fn(Seq<u8>) -> (ParseOutcome, Option<T>),
    stream: Seq<u8>,
    gaps: Seq<Seq<u8>>,
    frames: Seq<Seq<u8>>,
    values: Seq<T>,
) -> bool {
    &&& gaps.len() == frames.len() + 1
    &&& forall|k: int| 0 <= k < gaps.len() ==> is_gap(#[trigger] gaps[k])
    &&& carries(parse, frames, values)
    &&& stream == spaced_from(gaps, frames, 0)
}

proof fn lemma_visible_front(bytes: Seq<u8>)
    ensures
        without_leading_space(bytes).len() <= bytes.len(),
        without_leading_space(bytes).len() == 0 || starts_visibly(without_leading_space(bytes)),
        starts_visibly(bytes) ==> without_leading_space(bytes) == bytes,
{
    lemma_first_where_is(bytes, visible_byte());
    let i = first_where(bytes, visible_byte());
    if i < bytes.len() {
        assert(without_leading_space(bytes)[0] == bytes[i]);
    }
    if starts_visibly(bytes) {
        lemma_first_where(bytes, visible_byte(), 0);
        assert(bytes.skip(0) =~= bytes);
    }
}

proof fn lemma_space_before_more(bytes: Seq<u8>, more: Seq<u8>)
    ensures
        without_leading_space(bytes).len() > 0 ==> without_leading_space(bytes + more)
            == without_leading_space(bytes) + more,
        without_leading_space(bytes).len() == 0 ==> without_leading_space(bytes + more)
            == without_leading_space(more),
{
    let p = visible_byte();
    let all = bytes + more;
    lemma_first_where_is(bytes, p);
    lemma_first_where_is(more, p);
    let i = first_where(bytes, p);
    assert forall|j: int| 0 <= j < i implies !p(#[trigger] all[j]) by {
        assert(all[j] == bytes[j]);
    }
    if i < bytes.len() {
        assert(all[i] == bytes[i]);
        lemma_first_where(all, p, i);
        assert(all.skip(i) =~= bytes.skip(i) + more);
    } else {
        let k = first_where(more, p);
        assert forall|j: int| 0 <= j < bytes.len() + k implies !p(#[trigger] all[j]) by {
            if j >= bytes.len() {
                assert(all[j] == more[j - bytes.len()]);
            }
        }
        if k < more.len() {
            assert(all[bytes.len() + k] == more[k]);
        }
        lemma_first_where(all, p, bytes.len() + k);
        assert(all.skip(bytes.len() + k) =~= more.skip(k));
    }
}

/// Bytes that come later can as well come at once.
proof fn lemma_peel_in_parts<T>(
    parse: spec_fn(Seq<u8>) -> (ParseOutcome, Option<T>),
    bytes: Seq<u8>,
    more: Seq<u8>,
)
    requires
        is_steady(parse),
    ensures
        ({
            let first = peeled(parse, bytes);
            let then = peeled(parse, first.1 + more);
            peeled(parse, bytes + more) == (first.0 + then.0, then.1)
        }),
    decreases bytes.len(),
{
    let front = without_leading_space(bytes);
    let read = parse(front);
    let step = step_after(front, read.0);
    let first = peeled(parse, bytes);
    let then = peeled(parse, first.1 + more);
    lemma_visible_front(bytes);
    lemma_space_before_more(bytes, more);
    lemma_first_where_is(front, newline());
    if front.len() == 0 {
        assert(first.1 + more =~= more);
        lemma_same_front(parse, bytes + more, more);
        assert(first.0 + then.0 =~= then.0);
    } else if step == FrameStep::AwaitInput {
        lemma_visible_front(front + more);
        assert((front + more)[0] == front[0]);
        lemma_same_front(parse, bytes + more, front + more);
        assert(first.0 + then.0 =~= then.0);
    } else {
        let rest = after_parse(front, read.0);
        lemma_peel_in_parts(parse, rest, more);
        assert(parse(front + more) == read);
        if read.0 is Invalid {
            let i = first_where(front, newline());
            assert forall|j: int| 0 <= j < i implies !newline()(
                #[trigger] (front + more)[j],
            ) by {
                assert((front + more)[j] == front[j]);
            }
            assert((front + more)[i] == front[i]);
            lemma_first_where(front + more, newline(), i);
        }
        assert(after_parse(front + more, read.0) =~= rest + more);
        assert(step_after(front + more, read.0) == step);
        let later = peeled(parse, rest);
        let value = dispatched_value(step, read.1);
        assert(value + (later.0 + then.0) =~= (value + later.0) + then.0);
    }
}

proof fn lemma_same_front<T>(
    parse: spec_fn(Seq<u8>) -> (ParseOutcome, Option<T>),
    a: Seq<u8>,
    b: Seq<u8>,
)
    requires
        without_leading_space(a) == without_leading_space(b),
    ensures
        peeled(parse, a) == peeled(parse, b),
{
}

/// However the input is cut into reads, the same is dispatched and the same is
/// left over as if all of it had come at once.
pub proof fn law_the_cutting_of_the_input_does_not_matter<T>(
    parse: spec_fn(Seq<u8>) -> (ParseOutcome, Option<T>),
    reads: Seq<Seq<u8>>,
    n: int,
)
    requires
        is_steady(parse),
        0 <= n <= reads.len(),
    ensures
        served(parse, reads, n) == peeled(parse, joined(reads, n)),
    decreases n,
{
    if n == 0 {
        let none = Seq::<u8>::empty();
        lemma_visible_front(none);
        assert(without_leading_space(none) =~= none);
    } else {
        law_the_cutting_of_the_input_does_not_matter(parse, reads, n - 1);
        lemma_peel_in_parts(parse, joined(reads, n - 1), reads[n - 1]);
    }
}

proof fn lemma_peel_spaced<T>(
    parse: spec_fn(Seq<u8>) -> (ParseOutcome, Option<T>),
    gaps: Seq<Seq<u8>>,
    frames: Seq<Seq<u8>>,
    values: Seq<T>,
    k: int,
)
    requires
        is_steady(parse),
        gaps.len() == frames.len() + 1,
        forall|j: int| 0 <= j < gaps.len() ==> is_gap(#[trigger] gaps[j]),
        carries(parse, frames, values),
        0 <= k <= frames.len(),
    ensures
        peeled(parse, spaced_from(gaps, frames, k)) == (values.skip(k), Seq::<u8>::empty()),
    decreases frames.len() - k,
{
    let gap = gaps[k];
    assert(is_gap(gap));
    lemma_visible_front(gap);
    lemma_first_where_is(gap, visible_byte());
    assert(without_leading_space(gap).len() == 0) by {
        let i = first_where(gap, visible_byte());
        if i < gap.len() {
            assert(is_ascii_space(gap[i]));
        }
    }
    if k == frames.len() {
        assert(without_leading_space(gap) =~= Seq::<u8>::empty());
        assert(values.skip(k) =~= Seq::<T>::empty());
    } else {
        let frame = frames[k];
        let rest = spaced_from(gaps, frames, k + 1);
        lemma_peel_spaced(parse, gaps, frames, values, k + 1);
        lemma_space_before_more(gap, frame + rest);
        assert((frame + rest)[0] == frame[0]);
        lemma_visible_front(frame + rest);
        assert(parse(frame + rest) == parse(frame));
        assert(after_parse(frame + rest, parse(frame).0) =~= rest);
        assert(seq![values[k]] + values.skip(k + 1) =~= values.skip(k));
    }
}

/// A stream of frames is dispatched frame by frame: each once, in order, and
/// nothing else, however it is cut into reads and whatever white space stands
/// around the frames.
pub proof fn law_each_frame_is_dispatched_once_in_order<T>(
    parse: spec_fn(Seq<u8>) -> (ParseOutcome, Option<T>),
    reads: Seq<Seq<u8>>,
    gaps: Seq<Seq<u8>>,
    frames: Seq<Seq<u8>>,
    values: Seq<T>,
)
    requires
        is_steady(parse),
        is_stream_of(parse, joined(reads, reads.len() as int), gaps, frames, values),
    ensures
        served(parse, reads, reads.len() as int) == (values, Seq::<u8>::empty()),
{
    law_the_cutting_of_the_input_does_not_matter(parse, reads, reads.len() as int);
    lemma_peel_spaced(parse, gaps, frames, values, 0);
    assert(values.skip(0) =~= values);
}

/// Two streams that carry the same requests are served alike: neither the
/// layout of the frames, nor the white space around them, nor the cutting into
/// reads makes a difference.
pub proof fn law_streams_of_the_same_requests_are_served_alike<T>(
    parse: spec_fn(Seq<u8>) -> (ParseOutcome, Option<T>),
    values: Seq<T>,
    reads: Seq<Seq<u8>>,
    gaps: Seq<Seq<u8>>,
    frames: Seq<Seq<u8>>,
    other_reads: Seq<Seq<u8>>,
    other_gaps: Seq<Seq<u8>>,
    other_frames: Seq<Seq<u8>>,
)
    requires
        is_steady(parse),
        is_stream_of(parse, joined(reads, reads.len() as int), gaps, frames, values),
        is_stream_of(
            parse,
            joined(other_reads, other_reads.len() as int),
            other_gaps,
            other_frames,
            values,
        ),
    ensures
        served(parse, reads, reads.len() as int).0 == values,
        served(parse, other_reads, other_reads.len() as int).0 == values,
{
    law_each_frame_is_dispatched_once_in_order(parse, reads, gaps, frames, values);
    law_each_frame_is_dispatched_once_in_order(
        parse,
        other_reads,
        other_gaps,
        other_frames,
        values,
    );
}

} // verus!
