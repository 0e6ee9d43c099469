//! What is read from the input and from disk, and what is written there.
use std::path::{Path, PathBuf};
use vstd::prelude::*;

use crate::dispatch_queue_state::EntryView;
use crate::dispatch_queue_store::{
    all_identified, follows_parse, is_migration, is_queue_dir, is_queue_file, joined_path_text,
    path_buf_parts, path_buf_text, path_parts, path_text, saves, LoadAction, SavePlan, SaveStep,
};
use crate::frames::{
    after_parse, fits, models, newline, peeled, step_after, visible_byte, without_leading_space,
    FrameStep, ParseOutcome,
};
use crate::identity::is_uuid_v4;
use crate::seqs::{first_where, lemma_first_where_is};
use crate::text::trimmed;

verus! {

// -------------------------------------------------------------- input

/// Leading white space is skipped, up to the first byte that is none. The
/// result is how much.
pub proof fn law_leading_white_space_is_skipped(bytes: Seq<u8>) -> (n: int)
    ensures
        0 <= n <= bytes.len(),
        without_leading_space(bytes) == bytes.skip(n),
        forall|i: int|
            0 <= i < n ==> #[trigger] bytes[i] == 0x20 || bytes[i] == 0x09 || bytes[i] == 0x0a
                || bytes[i] == 0x0c || bytes[i] == 0x0d,
        n < bytes.len() ==> bytes[n] != 0x20 && bytes[n] != 0x09 && bytes[n] != 0x0a && bytes[n]
            != 0x0c && bytes[n] != 0x0d,
{
    let p = visible_byte();
    lemma_first_where_is(bytes, p);
    let n = first_where(bytes, p);
    assert forall|i: int| 0 <= i < n implies #[trigger] bytes[i] == 0x20 || bytes[i] == 0x09
        || bytes[i] == 0x0a || bytes[i] == 0x0c || bytes[i] == 0x0d by {
        assert(!p(bytes[i]));
    }
    if n < bytes.len() {
        assert(p(bytes[n]));
    }
    n
}

/// A frame is taken off the front and dispatched. After an invalid one the rest
/// of its line is dropped, newline included, once the newline is there. Else
/// nothing is dropped, and more input is awaited. The result is how many bytes
/// are dropped.
pub proof fn law_parsing_drops_frames_and_bad_lines(bytes: Seq<u8>, outcome: ParseOutcome) -> (n:
    int)
    ensures
        after_parse(bytes, outcome) == bytes.skip(n),
        match outcome {
            ParseOutcome::Frame { consumed } => n == consumed && step_after(bytes, outcome)
                == FrameStep::Dispatch,
            ParseOutcome::Incomplete => n == 0 && step_after(bytes, outcome)
                == FrameStep::AwaitInput,
            ParseOutcome::Exhausted => n == 0 && step_after(bytes, outcome)
                == FrameStep::AwaitInput,
            ParseOutcome::Invalid => {
                ||| {
                    &&& 0 < n <= bytes.len()
                    &&& bytes[n - 1] == 0x0a
                    &&& forall|i: int| 0 <= i < n - 1 ==> #[trigger] bytes[i] != 0x0a
                    &&& step_after(bytes, outcome) == FrameStep::Retry
                }
                ||| {
                    &&& n == 0
                    &&& forall|i: int| 0 <= i < bytes.len() ==> #[trigger] bytes[i] != 0x0a
                    &&& step_after(bytes, outcome) == FrameStep::AwaitInput
                }
            },
        },
{
    let p = newline();
    lemma_first_where_is(bytes, p);
    let i = first_where(bytes, p);
    assert forall|j: int| 0 <= j < i implies #[trigger] bytes[j] != 0x0a by {
        assert(!p(bytes[j]));
    }
    assert(bytes.skip(0) =~= bytes);
    match outcome {
        ParseOutcome::Frame { consumed } => consumed as int,
        ParseOutcome::Incomplete => 0,
        ParseOutcome::Exhausted => 0,
        ParseOutcome::Invalid => {
            if i < bytes.len() {
                assert(p(bytes[i]));
                i + 1
            } else {
                0
            }
        },
    }
}

/// An outcome fits the bytes unless it is a frame that takes none of them or
/// more than there are.
pub proof fn law_a_frame_takes_some_of_the_bytes(bytes: Seq<u8>, outcome: ParseOutcome)
    ensures
        fits(bytes, outcome) <==> match outcome {
            ParseOutcome::Frame { consumed } => 0 < consumed <= bytes.len(),
            _ => true,
        },
{
}

/// A model of a parser gives what the parser gives, on every input.
pub proof fn law_a_model_gives_what_the_parser_gives<
    T,
    P: Fn(&Vec<u8>) -> (ParseOutcome, Option<T>),
>(
    parse: P,
    model: spec_fn(Seq<u8>) -> (ParseOutcome, Option<T>),
)
    ensures
        models(parse, model) <==> forall|bytes: &Vec<u8>, read: (ParseOutcome, Option<T>)|
            #[trigger] parse.ensures((bytes,), read) ==> read == model(bytes@),
{
}

/// Frames come off the input one by one. Behind leading white space, a frame
/// dispatches its value, and then the bytes behind it are read; an invalid one
/// dispatches nothing, and then the bytes behind its line are read; in every
/// other case nothing is dispatched, and all bytes from there on wait.
pub proof fn law_frames_come_off_one_by_one<T>(
    parse: spec_fn(Seq<u8>) -> (ParseOutcome, Option<T>),
    bytes: Seq<u8>,
)
    requires
        fits(without_leading_space(bytes), parse(without_leading_space(bytes)).0),
    ensures
        ({
            let front = without_leading_space(bytes);
            let (outcome, value) = parse(front);
            let rest = peeled(parse, after_parse(front, outcome));
            let all = peeled(parse, bytes);
            if front.len() == 0 {
                all == (Seq::<T>::empty(), front)
            } else {
                match (step_after(front, outcome), value) {
                    (FrameStep::Dispatch, Some(value)) => all == (seq![value] + rest.0, rest.1),
                    (FrameStep::Dispatch, None) => all == rest,
                    (FrameStep::Retry, _) => all == rest,
                    (FrameStep::AwaitInput, _) => all == (Seq::<T>::empty(), front),
                }
            }
        }),
{
    let front = without_leading_space(bytes);
    let rest = peeled(parse, after_parse(front, parse(front).0));
    assert(Seq::<T>::empty() + rest.0 =~= rest.0);
}

// ---------------------------------------------------------------- disk

/// What is parsed is loaded as it is where no entry id is blank. Else exactly
/// the entries with a blank id get a version 4 UUID, and the queue is saved
/// before it is used.
pub proof fn law_loading_fills_in_blank_ids_alone(entries: Seq<EntryView>, action: LoadAction)
    requires
        follows_parse(entries, action),
    ensures
        action is Persist <==> exists|i: int|
            0 <= i < entries.len() && trimmed((#[trigger] entries[i]).entry_id).len() == 0,
        match action {
            LoadAction::Finish(loaded) => loaded matches Some(state) && state@ == entries,
            LoadAction::Persist(state) => {
                &&& state@.len() == entries.len()
                &&& forall|i: int|
                    0 <= i < entries.len() && trimmed(entries[i].entry_id).len() > 0
                        ==> #[trigger] state@[i] == entries[i]
                &&& forall|i: int|
                    0 <= i < entries.len() && trimmed(entries[i].entry_id).len() == 0 ==> {
                        &&& is_uuid_v4((#[trigger] state@[i]).entry_id)
                        &&& state@[i] == (EntryView { entry_id: state@[i].entry_id, ..entries[i] })
                    }
            },
            _ => false,
        },
{
}

/// A migration fills in blank ids with version 4 UUIDs and touches nothing
/// else; there is nothing to fill in exactly where no id is blank.
pub proof fn law_a_migration_fills_in_blank_ids_alone(
    before: Seq<EntryView>,
    after: Seq<EntryView>,
)
    requires
        is_migration(before, after),
    ensures
        after.len() == before.len(),
        forall|i: int|
            0 <= i < before.len() && trimmed(before[i].entry_id).len() > 0 ==> #[trigger] after[i]
                == before[i],
        forall|i: int|
            0 <= i < before.len() && trimmed(before[i].entry_id).len() == 0 ==> {
                &&& is_uuid_v4((#[trigger] after[i]).entry_id)
                &&& after[i] == (EntryView { entry_id: after[i].entry_id, ..before[i] })
            },
        all_identified(before) <==> forall|i: int|
            0 <= i < before.len() ==> trimmed((#[trigger] before[i]).entry_id).len() > 0,
{
}

/// The queue's files lie in the directory `.animus` right under the project
/// root.
pub proof fn law_the_files_lie_under_the_root(
    root: &Path,
    name: Seq<char>,
    dir: PathBuf,
    file: PathBuf,
)
    requires
        is_queue_dir(root, dir),
        is_queue_file(root, name, file),
    ensures
        path_text(root) matches Some(text) ==> {
            &&& path_buf_text(dir) == Some(joined_path_text(text, ".animus"@))
            &&& path_buf_text(file) == Some(
                joined_path_text(joined_path_text(text, ".animus"@), name),
            )
        },
        path_parts(root).len() == 0 || path_parts(root)[0].len() == 0 || path_parts(root)[0][0]
            != '\\' ==> {
            &&& path_buf_parts(dir) == path_parts(root).push(".animus"@)
            &&& path_buf_parts(file) == path_buf_parts(dir).push(name)
        },
{
}

/// An empty queue is saved by removing the state file, any other one by way of
/// a temporary file beside it that carries the token in its name.
pub proof fn law_a_save_goes_by_way_of_a_temporary_file(
    plan: SavePlan,
    root: &Path,
    entries: Seq<EntryView>,
    token: Seq<char>,
)
    requires
        saves(plan, root, entries, token),
    ensures
        is_queue_dir(root, plan.dir),
        is_queue_file(root, "queue.json"@, plan.path),
        plan.step is Remove <==> entries.len() == 0,
        plan.step matches SaveStep::Publish { staging } ==> is_queue_file(
            root,
            "queue.json."@ + token + ".tmp"@,
            staging,
        ),
{
}

} // verus!
