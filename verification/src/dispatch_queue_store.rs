//! Where the queue is stored, and what loading and saving it amount to.
//!
//! Layout under the project root:
//!
//! ```text
//! <project_root>/.animus/queue.json
//! <project_root>/.animus/queue.lock
//! ```
//!
//! The functions here decide; reading and writing files is left to the caller.
use std::path::{Path, PathBuf};
use vstd::prelude::*;
use vstd::string::*;

use crate::dispatch_queue_state::{DispatchQueueEntry, DispatchQueueState};
#[allow(unused_imports)]
use crate::dispatch_queue_state::{entry_views, EntryView};
use crate::identity::fresh_uuid;
#[allow(unused_imports)]
use crate::identity::{is_lower_hex, is_uuid_v4, lemma_uuid_not_blank};
#[allow(unused_imports)]
use crate::text::is_blank;

verus! {

// ------------------------------------------------------------- paths

/// `std::path::PathBuf`, an owned path.
#[verifier::external_type_specification]
#[verifier::external_body]
pub struct ExPathBuf(std::path::PathBuf);

/// `std::path::Path`, a borrowed path.
#[verifier::external_type_specification]
#[verifier::external_body]
pub struct ExPath(std::path::Path);

/// The components of a path, as `Path::components` lists them; a root stands
/// as the platform's main separator.
pub uninterp spec fn path_parts(path: &Path) -> Seq<Seq<char>>;

/// The components of an owned path, as `Path::components` lists them.
pub uninterp spec fn path_buf_parts(path: PathBuf) -> Seq<Seq<char>>;

/// The components of the path that a text stands for, as `Path::components`
/// lists them.
pub uninterp spec fn text_path_parts(text: Seq<char>) -> Seq<Seq<char>>;

/// The text of a path, as `Path::to_str` gives it.
pub uninterp spec fn path_text(path: &Path) -> Option<Seq<char>>;

/// The text of an owned path, as `Path::to_str` gives it.
pub uninterp spec fn path_buf_text(path: PathBuf) -> Option<Seq<char>>;

/// The text of the path that `Path::join` makes of the path with the text
/// `base` and the part `part`.
pub uninterp spec fn joined_path_text(base: Seq<char>, part: Seq<char>) -> Seq<char>;

/// Whether `c` separates components on some platform.
pub open spec fn is_separator(c: char) -> bool {
    c == '/' || c == '\\'
}

/// Whether `name` names one component on any platform.
pub open spec fn is_component_name(name: Seq<char>) -> bool {
    &&& name.len() > 0
    &&& name != seq!['.']
    &&& name != seq!['.', '.']
    &&& !name.contains('/')
    &&& !name.contains('\\')
    &&& !name.contains(':')
}

/// Whether `parts` are the components of a path whose text, where it ends in a
/// slash and a name, stands for what comes before and then that name. A text
/// that starts with two separators is left out: platforms differ on it.
pub open spec fn ends_in_name(parts: Seq<Seq<char>>, text: Seq<char>) -> bool {
    forall|i: int|
        0 <= i < text.len() && text[i] == '/' && is_component_name(#[trigger] text.skip(i + 1))
            && !(text.len() > 1 && is_separator(text[0]) && is_separator(text[1])) ==> parts
            == text_path_parts(text.take(i + 1)).push(text.skip(i + 1))
}

/// Whether a path with the components `parts` takes one more part as one more
/// component on any platform. It does unless it starts with a backslash: only
/// a root without a drive and a prefix other than a drive do.
pub open spec fn is_ordinary_base(parts: Seq<Seq<char>>) -> bool {
    parts.len() == 0 || parts[0].len() == 0 || parts[0][0] != '\\'
}

/// Whether a path can hold `part` as one ordinary component on any platform.
pub open spec fn is_plain_part(part: Seq<char>) -> bool {
    &&& part.len() > 2
    &&& !part.contains('/')
    &&& !part.contains('\\')
    &&& !part.contains(':')
}

/// `PathBuf::as_path` borrows the same path.
pub assume_specification[ PathBuf::as_path ](path: &PathBuf) -> (borrowed: &Path)
    ensures
        path_parts(borrowed) == path_buf_parts(*path),
        path_text(borrowed) == path_buf_text(*path),
;

/// Cloning a `PathBuf` gives the same path.
pub assume_specification[ <PathBuf as Clone>::clone ](path: &PathBuf) -> (copy: PathBuf)
    ensures
        path_buf_parts(copy) == path_buf_parts(*path),
        path_buf_text(copy) == path_buf_text(*path),
;

/// `PathBuf::from` takes a text for a path as it stands: the path has this
/// text, and the components that the text stands for. A last name behind a
/// slash is the last of them.
#[verifier::external_body]
pub(crate) fn path_from_text(text: String) -> (path: PathBuf)
    ensures
        path_buf_text(path) == Some(text@),
        path_buf_parts(path) == text_path_parts(text@),
        ends_in_name(path_buf_parts(path), text@),
{
    PathBuf::from(text)
}

/// `==` on `Path` compares component by component, so that repeated or
/// trailing separators make no difference.
#[verifier::external_body]
pub(crate) fn same_path(a: &Path, b: &Path) -> (same: bool)
    ensures
        same == (path_parts(a) == path_parts(b)),
{
    a == b
}

/// `Path::join` with one ordinary component appends it to the path. The text
/// of the result depends on the two texts alone. What its components are is
/// left unsaid for a base that starts with a backslash: on Windows that can be
/// a verbatim prefix, under which `join` normalizes, or an unfinished one,
/// which the part would complete.
#[verifier::external_body]
fn path_join(base: &Path, part: &str) -> (joined: PathBuf)
    requires
        is_plain_part(part@),
    ensures
        path_text(base) matches Some(text) ==> path_buf_text(joined) == Some(
            joined_path_text(text, part@),
        ),
        is_ordinary_base(path_parts(base)) ==> path_buf_parts(joined) == path_parts(base).push(
            part@,
        ),
{
    base.join(part)
}

/// Whether `path` is the queue's directory under `root`.
pub open spec fn is_queue_dir(root: &Path, path: PathBuf) -> bool {
    &&& path_text(root) matches Some(text) ==> path_buf_text(path) == Some(
        joined_path_text(text, ".animus"@),
    )
    &&& is_ordinary_base(path_parts(root)) ==> path_buf_parts(path) == path_parts(root).push(
        ".animus"@,
    )
}

/// Whether `path` is the file `name` in the queue's directory under `root`.
pub open spec fn is_queue_file(root: &Path, name: Seq<char>, path: PathBuf) -> bool {
    &&& path_text(root) matches Some(text) ==> path_buf_text(path) == Some(
        joined_path_text(joined_path_text(text, ".animus"@), name),
    )
    &&& is_ordinary_base(path_parts(root)) ==> path_buf_parts(path) == path_parts(root).push(
        ".animus"@,
    ).push(name)
}

/// The directory that holds the queue's files.
pub fn queue_dir_path(project_root: &Path) -> (path: PathBuf)
    ensures
        is_queue_dir(project_root, path),
{
    proof {
        reveal_strlit(".animus");
    }
    path_join(project_root, ".animus")
}

/// The queue state file under the project root.
pub fn queue_state_path(project_root: &Path) -> (path: PathBuf)
    ensures
        is_queue_file(project_root, "queue.json"@, path),
{
    proof {
        reveal_strlit(".animus");
        reveal_strlit("queue.json");
    }
    path_join(queue_dir_path(project_root).as_path(), "queue.json")
}

/// The queue lock file under the project root.
pub fn queue_lock_path(project_root: &Path) -> (path: PathBuf)
    ensures
        is_queue_file(project_root, "queue.lock"@, path),
{
    proof {
        reveal_strlit(".animus");
        reveal_strlit("queue.lock");
    }
    path_join(queue_dir_path(project_root).as_path(), "queue.lock")
}

// ----------------------------------------------------------- loading

/// What came of the last step of loading the queue.
#[derive(Debug)]
pub enum LoadEvent {
    /// There is no state file.
    Missing,
    /// The state file could not be read.
    Unreadable,
    /// The state file was read.
    Read(String),
    /// The contents are a state.
    State(DispatchQueueState),
    /// The contents are no state.
    NotState,
    /// The contents are a bare list of entries.
    Entries(Vec<DispatchQueueEntry>),
    /// The contents are no list of entries either.
    NotEntries,
}

/// What to do next to load the queue.
#[derive(Debug)]
pub enum LoadAction {
    /// The queue is loaded; `None` where it was never saved.
    Finish(Option<DispatchQueueState>),
    /// Save this state, then the queue is loaded with it.
    Persist(DispatchQueueState),
    /// Parse the contents as a state.
    ParseState,
    /// Parse the contents as a bare list of entries.
    ParseEntries,
    /// The state file cannot be read.
    FailRead,
    /// The state file cannot be parsed.
    FailParse,
}

/// Whether every entry has an id.
pub open spec fn all_identified(entries: Seq<EntryView>) -> bool {
    forall|i: int| 0 <= i < entries.len() ==> !is_blank((#[trigger] entries[i]).entry_id)
}

/// Whether `after` is `before` with a UUID for each entry without an id.
pub open spec fn is_migration(before: Seq<EntryView>, after: Seq<EntryView>) -> bool {
    &&& after.len() == before.len()
    &&& forall|i: int|
        0 <= i < before.len() ==> if is_blank(before[i].entry_id) {
            &&& is_uuid_v4((#[trigger] after[i]).entry_id)
            &&& after[i] == EntryView { entry_id: after[i].entry_id, ..before[i] }
        } else {
            after[i] == before[i]
        }
}

/// Whether `action` is what follows once `entries` were parsed: they are
/// loaded as they are where every entry has an id, else saved with new ids.
pub open spec fn follows_parse(entries: Seq<EntryView>, action: LoadAction) -> bool {
    match action {
        LoadAction::Finish(Some(state)) => all_identified(entries) && state@ == entries,
        LoadAction::Persist(state) => !all_identified(entries) && is_migration(entries, state@),
        _ => false,
    }
}

/// Gives each entry without an id a new one. Tells whether there was any.
pub fn migrate_missing_entry_ids(state: &mut DispatchQueueState) -> (migrated: bool)
    ensures
        is_migration(old(state)@, final(state)@),
        migrated == !all_identified(old(state)@),
        !migrated ==> final(state)@ == old(state)@,
        all_identified(final(state)@),
{
    let ghost s = state@;
    let mut migrated = false;
    let mut i: usize = 0;
    while i < state.entries.len()
        invariant
            state@.len() == s.len(),
            i <= s.len(),
            migrated == !all_identified(s.take(i as int)),
            forall|j: int|
                0 <= j < i ==> !is_blank((#[trigger] state@[j]).entry_id) && if is_blank(
                    s[j].entry_id,
                ) {
                    &&& is_uuid_v4(state@[j].entry_id)
                    &&& state@[j] == EntryView { entry_id: state@[j].entry_id, ..s[j] }
                } else {
                    state@[j] == s[j]
                },
            forall|j: int| i <= j < s.len() ==> #[trigger] state@[j] == s[j],
        decreases state.entries.len() - i,
    {
        let ghost before = state@;
        assert(state.entries@[i as int]@ == before[i as int]);
        let ghost fewer = s.take(i as int);
        let ghost more = s.take(i + 1);
        assert(forall|j: int| 0 <= j < i ==> #[trigger] fewer[j] == more[j]);
        assert(forall|j: int| 0 <= j < i ==> fewer[j] == #[trigger] more[j]);
        assert(more[i as int] == s[i as int]);
        if state.entries[i].entry_id.as_str().trim().is_empty() {
            let id = fresh_uuid();
            proof {
                lemma_uuid_not_blank(id@);
            }
            state.entries[i].entry_id = id;
            migrated = true;
            assert(state@ =~= before.update(
                i as int,
                EntryView { entry_id: id@, ..before[i as int] },
            ));
        }
        i += 1;
    }
    assert(s.take(i as int) =~= s);
    proof {
        if !migrated {
            assert(state@ =~= s);
        }
    }
    migrated
}

fn loaded(mut state: DispatchQueueState) -> (action: LoadAction)
    ensures
        follows_parse(state@, action),
{
    if migrate_missing_entry_ids(&mut state) {
        LoadAction::Persist(state)
    } else {
        LoadAction::Finish(Some(state))
    }
}

/// Decides the next step of loading the queue.
///
/// A missing file is a queue that was never saved; a blank one is empty.
/// Contents are parsed as a state, else as a bare list of entries. Entries
/// without an id get one, and the queue is then saved at once so that the new
/// ids are stable.
pub fn load_queue_state(event: LoadEvent) -> (action: LoadAction)
    ensures
        match event {
            LoadEvent::Missing => action == LoadAction::Finish(None),
            LoadEvent::Unreadable => action is FailRead,
            LoadEvent::Read(contents) => if is_blank(contents@) {
                action matches LoadAction::Finish(Some(state)) && state@.len() == 0
            } else {
                action is ParseState
            },
            LoadEvent::State(state) => follows_parse(state@, action),
            LoadEvent::NotState => action is ParseEntries,
            LoadEvent::Entries(entries) => follows_parse(entry_views(entries@), action),
            LoadEvent::NotEntries => action is FailParse,
        },
{
    match event {
        LoadEvent::Missing => LoadAction::Finish(None),
        LoadEvent::Unreadable => LoadAction::FailRead,
        LoadEvent::Read(contents) => {
            if contents.as_str().trim().is_empty() {
                LoadAction::Finish(Some(DispatchQueueState::default()))
            } else {
                LoadAction::ParseState
            }
        },
        LoadEvent::State(state) => loaded(state),
        LoadEvent::NotState => LoadAction::ParseEntries,
        LoadEvent::Entries(entries) => loaded(DispatchQueueState { entries }),
        LoadEvent::NotEntries => LoadAction::FailParse,
    }
}

// ------------------------------------------------------------ saving

/// How to bring the state file up to date.
#[derive(Debug)]
pub enum SaveStep {
    /// Remove the state file, if there is one.
    Remove,
    /// Write the state to this file, then rename that to the state file.
    Publish {
        /// The temporary file beside the state file.
        staging: PathBuf,
    },
}

/// How to save the queue.
#[derive(Debug)]
pub struct SavePlan {
    /// The directory, to be created where it is missing.
    pub dir: PathBuf,
    /// The state file.
    pub path: PathBuf,
    /// What to do with it.
    pub step: SaveStep,
}

/// The name of the temporary file with the token `token`.
pub open spec fn staging_name(token: Seq<char>) -> Seq<char> {
    "queue.json."@ + token + ".tmp"@
}

/// Whether `plan` saves `entries` under `root`, by way of a temporary file
/// with the token `token`: an empty queue has no state file.
pub open spec fn saves(
    plan: SavePlan,
    root: &Path,
    entries: Seq<EntryView>,
    token: Seq<char>,
) -> bool {
    &&& is_queue_dir(root, plan.dir)
    &&& is_queue_file(root, "queue.json"@, plan.path)
    &&& match plan.step {
        SaveStep::Remove => entries.len() == 0,
        SaveStep::Publish { staging } => entries.len() > 0 && is_queue_file(
            root,
            staging_name(token),
            staging,
        ),
    }
}

/// Plans how to save `state`, with `token` in the name of the temporary file.
pub fn plan_save(project_root: &Path, state: &DispatchQueueState, token: &str) -> (plan: SavePlan)
    requires
        is_uuid_v4(token@),
    ensures
        saves(plan, project_root, state@, token@),
{
    let dir = queue_dir_path(project_root);
    let path = queue_state_path(project_root);
    if state.entries.len() == 0 {
        return SavePlan { dir, path, step: SaveStep::Remove };
    }
    let name = "queue.json.".to_owned().concat(token).concat(".tmp");
    proof {
        reveal_strlit(".animus");
        reveal_strlit("queue.json.");
        reveal_strlit(".tmp");
        assert forall|c: char| name@.contains(c) implies c != '/' && c != '\\' && c != ':' by {
            let i = name@.index_of(c);
            if 11 <= i < 47 {
                let k = i - 11;
                assert(name@[i] == token@[k]);
                if !(k == 8 || k == 13 || k == 18 || k == 23) {
                    assert(is_lower_hex(token@[k]));
                }
            }
        }
        assert(is_plain_part(name@));
    }
    let staging = path_join(dir.as_path(), name.as_str());
    SavePlan { dir, path, step: SaveStep::Publish { staging } }
}

/// Plans how to save `state` under the project root. The state is written to
/// a temporary file that is renamed, so that readers see all of it or none.
pub fn save_queue_state(project_root: &Path, state: &DispatchQueueState) -> (plan: SavePlan)
    ensures
        exists|token: Seq<char>|
            is_uuid_v4(token) && #[trigger] saves(plan, project_root, state@, token),
{
    let token = fresh_uuid();
    plan_save(project_root, state, token.as_str())
}

} // verus!
