//! Peeling frames off a stream of bytes.
use vstd::prelude::*;

#[allow(unused_imports)]
use crate::seqs::{first_where, lemma_first_where, lemma_first_where_is};

verus! {

/// What parsing the front of the buffer came to.
#[derive(Debug, Clone, Copy, PartialEq, Eq, Structural)]
pub enum ParseOutcome {
    /// A frame was parsed from the first bytes.
    Frame {
        /// How many bytes the frame took.
        consumed: usize,
    },
    /// The bytes end within a frame.
    Incomplete,
    /// The bytes are no frame.
    Invalid,
    /// There was nothing to parse.
    Exhausted,
}

/// What to do after parsing.
#[derive(Debug, Clone, Copy, PartialEq, Eq, Structural)]
pub enum FrameStep {
    /// Handle the frame, then parse on.
    Dispatch,
    /// Parse on.
    Retry,
    /// Read more bytes.
    AwaitInput,
}

/// Whether `b` is ASCII white space.
pub open spec fn is_ascii_space(b: u8) -> bool {
    b == 0x20 || b == 0x09 || b == 0x0a || b == 0x0c || b == 0x0d
}

/// Whether a byte is no ASCII white space.
pub open spec fn visible_byte() -> spec_fn(u8) -> bool {
    |b: u8| !is_ascii_space(b)
}

/// Whether a byte is a newline.
pub open spec fn newline() -> spec_fn(u8) -> bool {
    |b: u8| b == 0x0a
}

/// `bytes` without its leading white space.
pub open spec fn without_leading_space(bytes: Seq<u8>) -> Seq<u8> {
    bytes.skip(first_where(bytes, visible_byte()))
}

/// What stays of the buffer after an invalid frame: what follows its first
/// newline, or all of it where it has none.
pub open spec fn after_invalid(bytes: Seq<u8>) -> Seq<u8> {
    let i = first_where(bytes, newline());
    if i < bytes.len() {
        bytes.skip(i + 1)
    } else {
        bytes
    }
}

/// What stays of the buffer after parsing.
pub open spec fn after_parse(bytes: Seq<u8>, outcome: ParseOutcome) -> Seq<u8> {
    match outcome {
        ParseOutcome::Frame { consumed } => bytes.skip(consumed as int),
        ParseOutcome::Invalid => after_invalid(bytes),
        ParseOutcome::Incomplete => bytes,
        ParseOutcome::Exhausted => bytes,
    }
}

/// What to do after parsing.
pub open spec fn step_after(bytes: Seq<u8>, outcome: ParseOutcome) -> FrameStep {
    match outcome {
        ParseOutcome::Frame { .. } => FrameStep::Dispatch,
        ParseOutcome::Invalid => if first_where(bytes, newline()) < bytes.len() {
            FrameStep::Retry
        } else {
            FrameStep::AwaitInput
        },
        ParseOutcome::Incomplete => FrameStep::AwaitInput,
        ParseOutcome::Exhausted => FrameStep::AwaitInput,
    }
}

fn drop_front(buffer: &mut Vec<u8>, n: usize)
    requires
        n <= old(buffer)@.len(),
    ensures
        final(buffer)@ == old(buffer)@.skip(n as int),
{
    let rest = buffer.split_off(n);
    *buffer = rest;
}

/// Drops leading white space. Tells whether anything is left to parse.
pub fn skip_leading_whitespace(buffer: &mut Vec<u8>) -> (parse: bool)
    ensures
        final(buffer)@ == without_leading_space(old(buffer)@),
        parse == (final(buffer)@.len() > 0),
{
    let ghost bytes = buffer@;
    let mut n: usize = 0;
    while n < buffer.len() && (buffer[n] == 0x20 || buffer[n] == 0x09 || buffer[n] == 0x0a
        || buffer[n] == 0x0c || buffer[n] == 0x0d)
        invariant
            buffer@ == bytes,
            n <= bytes.len(),
            forall|j: int| 0 <= j < n ==> !visible_byte()(#[trigger] bytes[j]),
        decreases bytes.len() - n,
    {
        n += 1;
    }
    proof {
        lemma_first_where(bytes, visible_byte(), n as int);
    }
    drop_front(buffer, n);
    buffer.len() > 0
}

/// Takes note of what parsing the buffer came to. A frame is taken off the
/// buffer. After an invalid one, bytes are discarded up to the next newline;
/// without a newline in sight nothing is, since the rest of the line may
/// still come.
pub fn advance(buffer: &mut Vec<u8>, outcome: ParseOutcome) -> (step: FrameStep)
    requires
        outcome matches ParseOutcome::Frame { consumed } ==> consumed <= old(buffer)@.len(),
    ensures
        final(buffer)@ == after_parse(old(buffer)@, outcome),
        step == step_after(old(buffer)@, outcome),
{
    match outcome {
        ParseOutcome::Frame { consumed } => {
            drop_front(buffer, consumed);
            FrameStep::Dispatch
        },
        ParseOutcome::Incomplete => FrameStep::AwaitInput,
        ParseOutcome::Exhausted => FrameStep::AwaitInput,
        ParseOutcome::Invalid => {
            let ghost bytes = buffer@;
            let mut n: usize = 0;
            while n < buffer.len() && buffer[n] != 0x0a
                invariant
                    buffer@ == bytes,
                    n <= bytes.len(),
                    forall|j: int| 0 <= j < n ==> !newline()(#[trigger] bytes[j]),
                decreases bytes.len() - n,
            {
                n += 1;
            }
            proof {
                lemma_first_where(bytes, newline(), n as int);
            }
            if n < buffer.len() {
                drop_front(buffer, n + 1);
                FrameStep::Retry
            } else {
                FrameStep::AwaitInput
            }
        },
    }
}

// ------------------------------------------------------------- reading

/// Whether an outcome of parsing `bytes` fits them: a frame takes some of the
/// bytes and no more than there are.
pub open spec fn fits(bytes: Seq<u8>, outcome: ParseOutcome) -> bool {
    outcome matches ParseOutcome::Frame { consumed } ==> 0 < consumed <= bytes.len()
}

/// The value that a step dispatches, if any.
pub open spec fn dispatched_value<T>(step: FrameStep, value: Option<T>) -> Seq<T> {
    if step == FrameStep::Dispatch && value is Some {
        seq![value->0]
    } else {
        Seq::empty()
    }
}

/// The values that are dispatched from `bytes`, and the bytes that are left
/// over until more come. `parse` tells what the front of a buffer parses to.
pub open spec fn peeled<T>(
    parse: spec_fn(Seq<u8>) -> (ParseOutcome, Option<T>),
    bytes: Seq<u8>,
) -> (Seq<T>, Seq<u8>)
    decreases bytes.len(),
{
    let front = without_leading_space(bytes);
    let read = parse(front);
    let step = step_after(front, read.0);
    if front.len() == 0 || step == FrameStep::AwaitInput || !fits(front, read.0) {
        (Seq::empty(), front)
    } else {
        proof {
            lemma_first_where_is(bytes, visible_byte());
            lemma_first_where_is(front, newline());
        }
        let later = peeled(parse, after_parse(front, read.0));
        (dispatched_value(step, read.1) + later.0, later.1)
    }
}

/// Whether `model` is what `parse` computes.
pub open spec fn models<T, P: Fn(&Vec<u8>) -> (ParseOutcome, Option<T>)>(
    parse: P,
    model: spec_fn(Seq<u8>) -> (ParseOutcome, Option<T>),
) -> bool {
    forall|bytes: &Vec<u8>, read: (ParseOutcome, Option<T>)|
        #[trigger] parse.ensures((bytes,), read) ==> read == model(bytes@)
}

/// Takes the frames off the buffer that `parse` finds at its front, one after
/// the other, until more bytes are needed. Gives their values, in order.
pub fn peel_frames<T, P: Fn(&Vec<u8>) -> (ParseOutcome, Option<T>)>(
    buffer: &mut Vec<u8>,
    parse: P,
) -> (values: Vec<T>)
    requires
        forall|bytes: &Vec<u8>| #[trigger] parse.requires((bytes,)),
        forall|bytes: &Vec<u8>, read: (ParseOutcome, Option<T>)|
            #[trigger] parse.ensures((bytes,), read) ==> fits(bytes@, read.0),
    ensures
        forall|model: spec_fn(Seq<u8>) -> (ParseOutcome, Option<T>)|
            #[trigger] models(parse, model) ==> (values@, final(buffer)@) == peeled(
                model,
                old(buffer)@,
            ),
{
    let ghost start = buffer@;
    let mut values: Vec<T> = Vec::new();
    let mut reading = true;
    while reading
        invariant
            forall|bytes: &Vec<u8>| #[trigger] parse.requires((bytes,)),
            forall|bytes: &Vec<u8>, read: (ParseOutcome, Option<T>)|
                #[trigger] parse.ensures((bytes,), read) ==> fits(bytes@, read.0),
            reading ==> forall|model: spec_fn(Seq<u8>) -> (ParseOutcome, Option<T>)|
                #[trigger] models(parse, model) ==> {
                    &&& values@ + peeled(model, buffer@).0 == peeled(model, start).0
                    &&& peeled(model, buffer@).1 == peeled(model, start).1
                },
            !reading ==> forall|model: spec_fn(Seq<u8>) -> (ParseOutcome, Option<T>)|
                #[trigger] models(parse, model) ==> (values@, buffer@) == peeled(model, start),
        decreases
            buffer@.len() + if reading {
                1int
            } else {
                0int
            },
    {
        let ghost before = buffer@;
        let ghost done = values@;
        proof {
            lemma_first_where_is(before, visible_byte());
        }
        if !skip_leading_whitespace(buffer) {
            proof {
                assert forall|model: spec_fn(Seq<u8>) -> (ParseOutcome, Option<T>)|
                    #[trigger] models(parse, model) implies (values@, buffer@) == peeled(
                    model,
                    start,
                ) by {
                    assert(done + peeled(model, before).0 =~= done);
                }
            }
            reading = false;
        } else {
            let ghost front = buffer@;
            let (outcome, value) = parse(&*buffer);
            proof {
                lemma_first_where_is(front, newline());
            }
            let step = advance(buffer, outcome);
            let ghost given = value;
            match step {
                FrameStep::Dispatch => {
                    match value {
                        Some(value) => {
                            values.push(value);
                        },
                        None => {},
                    }
                },
                FrameStep::Retry => {},
                FrameStep::AwaitInput => {
                    reading = false;
                },
            }
            proof {
                assert forall|model: spec_fn(Seq<u8>) -> (ParseOutcome, Option<T>)|
                    #[trigger] models(parse, model) implies if reading {
                    &&& values@ + peeled(model, buffer@).0 == peeled(model, start).0
                    &&& peeled(model, buffer@).1 == peeled(model, start).1
                } else {
                    (values@, buffer@) == peeled(model, start)
                } by {
                    assert((outcome, given) == model(front));
                    assert(values@ =~= done + dispatched_value(step, given));
                    if reading {
                        assert(values@ + peeled(model, buffer@).0 =~= done + (dispatched_value(
                            step,
                            given,
                        ) + peeled(model, buffer@).0));
                    } else {
                        assert(done + peeled(model, before).0 =~= done);
                    }
                }
            }
        }
    }
    values
}

} // verus!
