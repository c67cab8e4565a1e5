//! State that is kept from one run of the program to the next.
//!
//! Reading, decoding, encoding and writing happen elsewhere: [`InternalStorage::load`] is told what
//! was found, and [`InternalStorage::persist`] asks for what is to be done.

use crate::path;
use crate::path::{empty_path, join_file_name, parent_directory, show_path};
use crate::text::join_text;
use std::path::PathBuf;
use vstd::prelude::*;
use vstd::utf8::*;

verus! {

/// The name of the file inside the home directory.
pub const INTERNAL_STORAGE_FILE: &'static str = "internal_storage.json";

/// The state.
#[derive(Debug)]
pub struct InternalStorage {
    /// The file in which the state is kept.
    pub storage_path: PathBuf,
    pub gpt_5_codex_model_prompt_seen: bool,
}

/// What the state is and where it is kept.
#[verifier::ext_equal]
pub struct StorageView {
    pub path: Seq<Seq<u8>>,
    pub gpt_5_codex_model_prompt_seen: bool,
}

impl View for InternalStorage {
    type V = StorageView;

    open spec fn view(&self) -> StorageView {
        StorageView {
            path: path::path_components(self.storage_path),
            gpt_5_codex_model_prompt_seen: self.gpt_5_codex_model_prompt_seen,
        }
    }
}

/// What came of reading the file.
#[derive(Debug, Clone, Copy, PartialEq, Eq, Structural)]
pub enum Stored {
    /// It was decoded; the field may be missing.
    Found { gpt_5_codex_model_prompt_seen: Option<bool> },
    /// There is no file.
    NotFound,
    /// It could not be read or decoded.
    Failed,
}

/// The state that was stored; whatever is missing is `false`.
pub open spec fn stored_flag(stored: Stored) -> bool {
    stored == (Stored::Found { gpt_5_codex_model_prompt_seen: Some(true) })
}

/// The components of the path of the file.
pub open spec fn storage_path(codex_home: PathBuf) -> Seq<Seq<u8>> {
    path::path_components(codex_home).push(encode_utf8("internal_storage.json"@))
}

proof fn lemma_storage_has_a_name(codex_home: PathBuf)
    ensures
        path::is_file_name("internal_storage.json"@),
        path::has_parent(storage_path(codex_home)),
{
    reveal_strlit("internal_storage.json");
    assert("internal_storage.json"@.len() == 21);
    path::lemma_files_have_parents(storage_path(codex_home), "internal_storage.json"@);
}

/// The path of the file.
pub fn storage_filepath(codex_home: &PathBuf) -> (file: PathBuf)
    ensures
        path::path_components(file) == storage_path(*codex_home),
{
    proof {
        lemma_storage_has_a_name(*codex_home);
    }
    join_file_name(codex_home, INTERNAL_STORAGE_FILE)
}

impl Default for InternalStorage {
    fn default() -> (storage: Self)
        ensures
            storage@ == (StorageView {
                path: Seq::<Seq<u8>>::empty(),
                gpt_5_codex_model_prompt_seen: false,
            }),
    {
        InternalStorage { storage_path: empty_path(), gpt_5_codex_model_prompt_seen: false }
    }
}

impl Clone for InternalStorage {
    fn clone(&self) -> (copy: Self)
        ensures
            copy == *self,
    {
        InternalStorage {
            storage_path: self.storage_path.clone(),
            gpt_5_codex_model_prompt_seen: self.gpt_5_codex_model_prompt_seen,
        }
    }
}

/// What a persist is waiting for.
#[derive(Debug)]
pub enum PersistPhase {
    /// The directory of the file to exist.
    CreatingDirectory { parent: PathBuf },
    /// The JSON form of the state.
    Serialising,
    /// The file to be written.
    Writing,
}

/// What is to be done next for a persist.
#[derive(Debug)]
pub enum PersistAction {
    /// Create this directory and those above it, if they are missing.
    CreateDirectory { path: PathBuf },
    /// Write the state as indented JSON.
    Serialise { gpt_5_codex_model_prompt_seen: bool },
    /// Replace what the file holds.
    Write { path: PathBuf, content: String },
}

/// What an action asks for.
#[verifier::ext_equal]
pub enum PersistActionView {
    CreateDirectory { path: Seq<Seq<u8>> },
    Serialise { gpt_5_codex_model_prompt_seen: bool },
    Write { path: Seq<Seq<u8>>, content: Seq<char> },
}

impl View for PersistAction {
    type V = PersistActionView;

    open spec fn view(&self) -> PersistActionView {
        match *self {
            PersistAction::CreateDirectory { path } => PersistActionView::CreateDirectory {
                path: path::path_components(path),
            },
            PersistAction::Serialise { gpt_5_codex_model_prompt_seen } =>
                PersistActionView::Serialise { gpt_5_codex_model_prompt_seen },
            PersistAction::Write { path, content } => PersistActionView::Write {
                path: path::path_components(path),
                content: content@,
            },
        }
    }
}

/// What came of an action.
#[derive(Debug)]
pub enum PersistEvent {
    DirectoryCreated,
    Serialised(String),
    Written,
    /// The action failed, with an error of its own.
    Failed,
}

/// What an event tells.
#[verifier::ext_equal]
pub enum PersistEventView {
    DirectoryCreated,
    Serialised(Seq<char>),
    Written,
    Failed,
}

impl View for PersistEvent {
    type V = PersistEventView;

    open spec fn view(&self) -> PersistEventView {
        match *self {
            PersistEvent::DirectoryCreated => PersistEventView::DirectoryCreated,
            PersistEvent::Serialised(content) => PersistEventView::Serialised(content@),
            PersistEvent::Written => PersistEventView::Written,
            PersistEvent::Failed => PersistEventView::Failed,
        }
    }
}

/// How a persist goes on.
#[derive(Debug)]
pub enum PersistStep {
    /// Do `action` and come back with what came of it.
    Continue { phase: PersistPhase, action: PersistAction },
    /// The state was written.
    Done,
    /// The last action failed; the text, if there is one, says what was being done.
    Failed { context: Option<String> },
}

/// How a persist goes on.
#[verifier::ext_equal]
pub enum PersistStepView {
    Continue { phase: PersistPhase, action: PersistActionView },
    Done,
    Failed { context: Option<Seq<char>> },
}

impl View for PersistStep {
    type V = PersistStepView;

    open spec fn view(&self) -> PersistStepView {
        match *self {
            PersistStep::Continue { phase, action } => PersistStepView::Continue {
                phase,
                action: action@,
            },
            PersistStep::Done => PersistStepView::Done,
            PersistStep::Failed { context: Some(context) } => PersistStepView::Failed {
                context: Some(context@),
            },
            PersistStep::Failed { context: None } => PersistStepView::Failed { context: None },
        }
    }
}

/// The event can come of the action that was asked for in this phase.
pub open spec fn fits(phase: PersistPhase, event: PersistEventView) -> bool {
    ||| event is Failed
    ||| match phase {
        PersistPhase::CreatingDirectory { .. } => event is DirectoryCreated,
        PersistPhase::Serialising => event is Serialised,
        PersistPhase::Writing => event is Written,
    }
}

/// How a persist goes on once the directory exists.
pub open spec fn serialise(storage: StorageView) -> PersistStepView {
    PersistStepView::Continue {
        phase: PersistPhase::Serialising,
        action: PersistActionView::Serialise {
            gpt_5_codex_model_prompt_seen: storage.gpt_5_codex_model_prompt_seen,
        },
    }
}

/// A persist starts with the directory of the file, or, if there is none, with the state.
pub open spec fn is_first_step(storage: StorageView, step: PersistStepView) -> bool {
    match step {
        PersistStepView::Continue {
            phase: PersistPhase::CreatingDirectory { parent },
            action,
        } => {
            &&& path::has_parent(storage.path)
            &&& path::path_components(parent) == storage.path.drop_last()
            &&& action == PersistActionView::CreateDirectory { path: storage.path.drop_last() }
        },
        _ => step == serialise(storage) && !path::has_parent(storage.path),
    }
}

/// What a persist does with the next event, when the state is kept in `file`.
pub open spec fn next_step(
    storage: StorageView,
    file: PathBuf,
    phase: PersistPhase,
    event: PersistEventView,
) -> PersistStepView {
    match (phase, event) {
        (
            PersistPhase::CreatingDirectory { parent },
            PersistEventView::Failed,
        ) => PersistStepView::Failed {
            context: Some("failed to create directory "@ + path::shown_path(parent)),
        },
        (PersistPhase::CreatingDirectory { .. }, _) => serialise(storage),
        (
            PersistPhase::Serialising,
            PersistEventView::Serialised(content),
        ) => PersistStepView::Continue {
            phase: PersistPhase::Writing,
            action: PersistActionView::Write { path: storage.path, content },
        },
        (PersistPhase::Serialising, _) => PersistStepView::Failed { context: None },
        (PersistPhase::Writing, PersistEventView::Written) => PersistStepView::Done,
        (PersistPhase::Writing, _) => PersistStepView::Failed {
            context: Some("failed to write to "@ + path::shown_path(file)),
        },
    }
}

impl InternalStorage {
    /// The state that was found in the home directory; if there is none, or if it cannot be read,
    /// a fresh one.
    pub fn load(codex_home: &PathBuf, stored: Stored) -> (storage: Self)
        ensures
            storage@ == loaded(*codex_home, stored),
    {
        let mut storage = InternalStorage::default();
        match stored {
            Stored::Found { gpt_5_codex_model_prompt_seen: Some(seen) } => {
                storage.gpt_5_codex_model_prompt_seen = seen;
            },
            _ => {},
        }
        storage.storage_path = storage_filepath(codex_home);
        storage
    }

    /// Starts to write the state to its file.
    pub fn persist(&self) -> (step: PersistStep)
        ensures
            is_first_step(self@, step@),
    {
        match parent_directory(&self.storage_path) {
            Some(parent) => PersistStep::Continue {
                phase: PersistPhase::CreatingDirectory { parent: parent.clone() },
                action: PersistAction::CreateDirectory { path: parent },
            },
            None => self.serialise(),
        }
    }

    fn serialise(&self) -> (step: PersistStep)
        ensures
            step@ == serialise(self@),
    {
        PersistStep::Continue {
            phase: PersistPhase::Serialising,
            action: PersistAction::Serialise {
                gpt_5_codex_model_prompt_seen: self.gpt_5_codex_model_prompt_seen,
            },
        }
    }

    /// Goes on with writing the state after `event`.
    pub fn persist_next(&self, phase: PersistPhase, event: PersistEvent) -> (step: PersistStep)
        requires
            fits(phase, event@),
        ensures
            step@ == next_step(self@, self.storage_path, phase, event@),
    {
        match phase {
            PersistPhase::CreatingDirectory { parent } => match event {
                PersistEvent::Failed => {
                    let shown = show_path(&parent);
                    let context = join_text("failed to create directory ", shown.as_str());
                    PersistStep::Failed { context: Some(context) }
                },
                _ => self.serialise(),
            },
            PersistPhase::Serialising => match event {
                PersistEvent::Serialised(content) => PersistStep::Continue {
                    phase: PersistPhase::Writing,
                    action: PersistAction::Write { path: self.storage_path.clone(), content },
                },
                _ => PersistStep::Failed { context: None },
            },
            PersistPhase::Writing => match event {
                PersistEvent::Written => PersistStep::Done,
                _ => {
                    let shown = show_path(&self.storage_path);
                    let context = join_text("failed to write to ", shown.as_str());
                    PersistStep::Failed { context: Some(context) }
                },
            },
        }
    }
}

/// The state that is loaded from a home directory in which `stored` was found.
pub open spec fn loaded(codex_home: PathBuf, stored: Stored) -> StorageView {
    StorageView {
        path: storage_path(codex_home),
        gpt_5_codex_model_prompt_seen: stored_flag(stored),
    }
}

/// What comes of an action that does not fail.
pub open spec fn answer(
    encode: spec_fn(bool) -> Seq<char>,
    action: PersistActionView,
) -> PersistEventView {
    match action {
        PersistActionView::CreateDirectory { .. } => PersistEventView::DirectoryCreated,
        PersistActionView::Serialise { gpt_5_codex_model_prompt_seen } =>
            PersistEventView::Serialised(encode(gpt_5_codex_model_prompt_seen)),
        PersistActionView::Write { .. } => PersistEventView::Written,
    }
}

/// What a persist has written to which file, and how it stands, after at most `fuel` further
/// actions that do not fail.
pub open spec fn run(
    storage: StorageView,
    file: PathBuf,
    encode: spec_fn(bool) -> Seq<char>,
    step: PersistStepView,
    written: Option<(Seq<Seq<u8>>, Seq<char>)>,
    fuel: nat,
) -> (PersistStepView, Option<(Seq<Seq<u8>>, Seq<char>)>)
    decreases fuel,
{
    match step {
        PersistStepView::Continue { phase, action } => if fuel == 0 {
            (step, written)
        } else {
            run(
                storage,
                file,
                encode,
                next_step(storage, file, phase, answer(encode, action)),
                match action {
                    PersistActionView::Write { path, content } => Some((path, content)),
                    _ => written,
                },
                (fuel - 1) as nat,
            )
        },
        _ => (step, written),
    }
}

/// A persist in which nothing fails writes the state to the file from which it was loaded, and
/// loading what was written gives the state back, if decoding undoes encoding.
pub proof fn persisted_state_is_loaded_again(
    codex_home: PathBuf,
    stored: Stored,
    seen: bool,
    file: PathBuf,
    first: PersistStepView,
    encode: spec_fn(bool) -> Seq<char>,
    decode: spec_fn(Seq<char>) -> Stored,
)
    requires
        forall|flag: bool|
            #[trigger] decode(encode(flag)) == (Stored::Found {
                gpt_5_codex_model_prompt_seen: Some(flag),
            }),
        is_first_step(
            StorageView {
                gpt_5_codex_model_prompt_seen: seen,
                ..loaded(codex_home, stored)
            },
            first,
        ),
    ensures
        ({
            let storage = StorageView {
                gpt_5_codex_model_prompt_seen: seen,
                ..loaded(codex_home, stored)
            };
            let (end, written) = run(storage, file, encode, first, None, 3);
            &&& end is Done
            &&& written == Some((storage_path(codex_home), encode(seen)))
            &&& loaded(codex_home, decode(encode(seen))) == storage
        }),
{
    reveal_with_fuel(run, 4);
    lemma_storage_has_a_name(codex_home);
    assert(decode(encode(seen)) == (Stored::Found { gpt_5_codex_model_prompt_seen: Some(seen) }));
}

/// The state lies in the home directory, under its own name, and is what was stored there; what
/// cannot be found or read is as if it had never been set.
pub proof fn loaded_state_is_what_was_stored(codex_home: PathBuf, stored: Stored)
    ensures
        loaded(codex_home, stored).path == path::path_components(codex_home).push(
            encode_utf8("internal_storage.json"@),
        ),
        storage_path(codex_home) == loaded(codex_home, stored).path,
        match stored {
            Stored::Found { gpt_5_codex_model_prompt_seen: Some(seen) } => loaded(
                codex_home,
                stored,
            ).gpt_5_codex_model_prompt_seen == seen,
            _ => !loaded(codex_home, stored).gpt_5_codex_model_prompt_seen,
        },
{
}

/// A persist in which nothing fails writes the encoded state of any storage to its own file, and
/// has the directory of that file created before, if it lies in one.
pub proof fn persist_writes_the_state_to_its_file(
    storage: StorageView,
    file: PathBuf,
    first: PersistStepView,
    encode: spec_fn(bool) -> Seq<char>,
)
    requires
        is_first_step(storage, first),
    ensures
        run(storage, file, encode, first, None, 3).0 is Done,
        run(storage, file, encode, first, None, 3).1 == Some(
            (storage.path, encode(storage.gpt_5_codex_model_prompt_seen)),
        ),
        first is Continue,
        first->action is CreateDirectory <==> storage.path.len() > 0 && storage.path.last()
            != encode_utf8(seq!['/']),
        first->action matches PersistActionView::CreateDirectory { path } ==> path
            == storage.path.drop_last(),
{
    reveal_with_fuel(run, 4);
}

/// A persist that meets a failure ends, and says which directory it could not create or which file
/// it could not write; a state that cannot be encoded is not commented on.
pub proof fn failed_persist_says_what_it_was_doing(
    storage: StorageView,
    file: PathBuf,
    phase: PersistPhase,
)
    ensures
        next_step(storage, file, phase, PersistEventView::Failed) == (PersistStepView::Failed {
            context: match phase {
                PersistPhase::CreatingDirectory { parent } => Some(
                    "failed to create directory "@ + path::shown_path(parent),
                ),
                PersistPhase::Serialising => None,
                PersistPhase::Writing => Some("failed to write to "@ + path::shown_path(file)),
            },
        }),
{
}

/// A persist takes whatever can come of what it asks for.
pub proof fn persist_takes_what_can_come(phase: PersistPhase, parent: PathBuf, content: Seq<char>)
    ensures
        fits(phase, PersistEventView::Failed),
        fits(PersistPhase::CreatingDirectory { parent }, PersistEventView::DirectoryCreated),
        fits(PersistPhase::Serialising, PersistEventView::Serialised(content)),
        fits(PersistPhase::Writing, PersistEventView::Written),
{
}

/// The views of states, actions, events and steps hold all that these say.
pub proof fn views_hold_all_of_a_persist(
    storage: InternalStorage,
    action: PersistAction,
    event: PersistEvent,
    step: PersistStep,
)
    ensures
        storage@.path == path::path_components(storage.storage_path),
        storage@.gpt_5_codex_model_prompt_seen == storage.gpt_5_codex_model_prompt_seen,
        match action {
            PersistAction::CreateDirectory { path } => action@
                == PersistActionView::CreateDirectory { path: path::path_components(path) },
            PersistAction::Serialise { gpt_5_codex_model_prompt_seen } => action@
                == PersistActionView::Serialise { gpt_5_codex_model_prompt_seen },
            PersistAction::Write { path, content } => action@ == PersistActionView::Write {
                path: path::path_components(path),
                content: content@,
            },
        },
        match event {
            PersistEvent::DirectoryCreated => event@ is DirectoryCreated,
            PersistEvent::Serialised(content) => event@ == PersistEventView::Serialised(content@),
            PersistEvent::Written => event@ is Written,
            PersistEvent::Failed => event@ is Failed,
        },
        match step {
            PersistStep::Continue { phase, action } => step@ == (PersistStepView::Continue {
                phase,
                action: action@,
            }),
            PersistStep::Done => step@ is Done,
            PersistStep::Failed { context: Some(context) } => step@ == (PersistStepView::Failed {
                context: Some(context@),
            }),
            PersistStep::Failed { context: None } => step@ == (PersistStepView::Failed {
                context: None,
            }),
        },
{
}

} // verus!
