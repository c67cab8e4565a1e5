//! Appending a record to the message history.
//!
//! As with lookups, the work on the file is asked for as an [`AppendAction`] and reported as an
//! [`AppendEvent`].

use super::{history_filepath, EntryView, HistoryEntry, MAX_RETRIES};
use crate::config::{Config, HistoryPersistence};
use crate::message_history;
use crate::path;
use crate::path::parent_directory;
use crate::text::join_text;
use std::path::PathBuf;
use vstd::prelude::*;
use vstd::utf8::*;

verus! {

/// The permissions of the history file: its owner may read and write it, nobody else may do
/// anything.
pub const OWNER_ONLY_MODE: u32 = 0o600;

/// The bits of a file mode that are permissions.
pub const PERMISSION_BITS: u32 = 0o777;

/// The permissions that a file with this mode is to be given, if it does not have them.
pub fn ensure_owner_only_permissions(mode: u32) -> (change: Option<u32>)
    ensures
        change == (if mode & 0o777 == 0o600 {
            None::<u32>
        } else {
            Some(0o600u32)
        }),
{
    if mode & PERMISSION_BITS != OWNER_ONLY_MODE {
        Some(OWNER_ONLY_MODE)
    } else {
        None
    }
}

/// Why a record was not appended.
#[derive(Debug)]
pub enum AppendError {
    /// The action that was asked for last failed, with an error of its own.
    Io,
    /// The record could not be made; the text says why.
    Other(String),
    /// Someone else held a lock on the file at every try.
    WouldBlock(String),
}

/// What an error says.
#[verifier::ext_equal]
pub enum AppendErrorView {
    Io,
    Other(Seq<char>),
    WouldBlock(Seq<char>),
}

impl View for AppendError {
    type V = AppendErrorView;

    open spec fn view(&self) -> AppendErrorView {
        match *self {
            AppendError::Io => AppendErrorView::Io,
            AppendError::Other(message) => AppendErrorView::Other(message@),
            AppendError::WouldBlock(message) => AppendErrorView::WouldBlock(message@),
        }
    }
}

/// What an append is waiting for.
#[derive(Debug, Clone, Copy, PartialEq, Eq, Structural)]
pub enum AppendPhase {
    /// The directory of the file to exist.
    CreatingDirectory,
    /// The time.
    Timing,
    /// The JSON form of the record.
    Serialising,
    /// The file to be opened.
    Opening,
    /// The mode of the file.
    Inspecting,
    /// The mode of the file to be changed.
    Restricting,
    /// An exclusive lock, which could not be had `attempts` times.
    Locking { attempts: usize },
    /// The end of the pause after a failed try.
    Waiting { attempts: usize },
    /// The line to be written.
    Writing,
}

/// An append that has not ended.
#[derive(Debug)]
pub struct Append {
    pub path: PathBuf,
    pub session_id: String,
    pub text: String,
    /// The line that is to be written, once the record has its JSON form.
    pub line: String,
    pub phase: AppendPhase,
}

/// Where an append stands.
#[verifier::ext_equal]
pub struct AppendView {
    pub path: Seq<Seq<u8>>,
    pub session_id: Seq<char>,
    pub text: Seq<char>,
    pub line: Seq<char>,
    pub phase: AppendPhase,
}

impl View for Append {
    type V = AppendView;

    open spec fn view(&self) -> AppendView {
        AppendView {
            path: path::path_components(self.path),
            session_id: self.session_id@,
            text: self.text@,
            line: self.line@,
            phase: self.phase,
        }
    }
}

/// What is to be done next for an append.
#[derive(Debug)]
pub enum AppendAction {
    /// Create this directory and those above it, if they are missing.
    CreateDirectory { path: PathBuf },
    /// Tell the seconds since the Unix epoch.
    TellTime,
    /// Write the record as one JSON object, without a line feed.
    Serialise(HistoryEntry),
    /// Open the file for reading and appending; create it with [`OWNER_ONLY_MODE`] if it is
    /// missing.
    Open { path: PathBuf },
    /// Tell the mode of the open file.
    TellMode,
    /// Change the mode of the open file.
    SetMode(u32),
    /// Try to take an exclusive lock on the open file.
    TryLock,
    /// Wait for [`RETRY_SLEEP_MS`](super::RETRY_SLEEP_MS).
    Sleep,
    /// Append this text in one go, and flush.
    Write(String),
}

/// What an action asks for.
#[verifier::ext_equal]
pub enum AppendActionView {
    CreateDirectory { path: Seq<Seq<u8>> },
    TellTime,
    Serialise(EntryView),
    Open { path: Seq<Seq<u8>> },
    TellMode,
    SetMode(u32),
    TryLock,
    Sleep,
    Write(Seq<char>),
}

impl View for AppendAction {
    type V = AppendActionView;

    open spec fn view(&self) -> AppendActionView {
        match *self {
            AppendAction::CreateDirectory { path } => AppendActionView::CreateDirectory {
                path: path::path_components(path),
            },
            AppendAction::TellTime => AppendActionView::TellTime,
            AppendAction::Serialise(entry) => AppendActionView::Serialise(entry@),
            AppendAction::Open { path } => AppendActionView::Open {
                path: path::path_components(path),
            },
            AppendAction::TellMode => AppendActionView::TellMode,
            AppendAction::SetMode(mode) => AppendActionView::SetMode(mode),
            AppendAction::TryLock => AppendActionView::TryLock,
            AppendAction::Sleep => AppendActionView::Sleep,
            AppendAction::Write(line) => AppendActionView::Write(line@),
        }
    }
}

/// What came of an action.
#[derive(Debug)]
pub enum AppendEvent {
    DirectoryCreated,
    /// The seconds since the Unix epoch.
    Time(u64),
    /// The clock is before the Unix epoch.
    ClockFailed(String),
    Serialised(String),
    SerialiseFailed(String),
    Opened,
    Mode(u32),
    ModeSet,
    Locked,
    /// Someone else holds a lock.
    WouldBlock,
    Slept,
    Written,
    /// A directory or file operation failed.
    Failed,
}

/// What an event tells.
#[verifier::ext_equal]
pub enum AppendEventView {
    DirectoryCreated,
    Time(u64),
    ClockFailed(Seq<char>),
    Serialised(Seq<char>),
    SerialiseFailed(Seq<char>),
    Opened,
    Mode(u32),
    ModeSet,
    Locked,
    WouldBlock,
    Slept,
    Written,
    Failed,
}

impl View for AppendEvent {
    type V = AppendEventView;

    open spec fn view(&self) -> AppendEventView {
        match *self {
            AppendEvent::DirectoryCreated => AppendEventView::DirectoryCreated,
            AppendEvent::Time(ts) => AppendEventView::Time(ts),
            AppendEvent::ClockFailed(message) => AppendEventView::ClockFailed(message@),
            AppendEvent::Serialised(json) => AppendEventView::Serialised(json@),
            AppendEvent::SerialiseFailed(message) => AppendEventView::SerialiseFailed(message@),
            AppendEvent::Opened => AppendEventView::Opened,
            AppendEvent::Mode(mode) => AppendEventView::Mode(mode),
            AppendEvent::ModeSet => AppendEventView::ModeSet,
            AppendEvent::Locked => AppendEventView::Locked,
            AppendEvent::WouldBlock => AppendEventView::WouldBlock,
            AppendEvent::Slept => AppendEventView::Slept,
            AppendEvent::Written => AppendEventView::Written,
            AppendEvent::Failed => AppendEventView::Failed,
        }
    }
}

/// How an append goes on.
#[derive(Debug)]
pub enum AppendStep {
    /// Do `action` and come back with what came of it.
    Continue { append: Append, action: AppendAction },
    /// The append has ended.
    Done(Result<(), AppendError>),
}

/// How an append goes on.
#[verifier::ext_equal]
pub enum AppendStepView {
    Continue { append: AppendView, action: AppendActionView },
    Done(Result<(), AppendErrorView>),
}

impl View for AppendStep {
    type V = AppendStepView;

    open spec fn view(&self) -> AppendStepView {
        match *self {
            AppendStep::Continue { append, action } => AppendStepView::Continue {
                append: append@,
                action: action@,
            },
            AppendStep::Done(Ok(())) => AppendStepView::Done(Ok(())),
            AppendStep::Done(Err(error)) => AppendStepView::Done(Err(error@)),
        }
    }
}

/// The event can come of the action that an append in this phase has asked for.
pub open spec fn fits(phase: AppendPhase, event: AppendEventView) -> bool {
    match phase {
        AppendPhase::CreatingDirectory => event is DirectoryCreated || event is Failed,
        AppendPhase::Timing => event is Time || event is ClockFailed,
        AppendPhase::Serialising => event is Serialised || event is SerialiseFailed,
        AppendPhase::Opening => event is Opened || event is Failed,
        AppendPhase::Inspecting => event is Mode || event is Failed,
        AppendPhase::Restricting => event is ModeSet || event is Failed,
        AppendPhase::Locking { .. } => event is Locked || event is WouldBlock || event is Failed,
        AppendPhase::Waiting { .. } => event is Slept,
        AppendPhase::Writing => event is Written || event is Failed,
    }
}

/// An append counts its tries.
pub open spec fn is_well_formed(append: AppendView) -> bool {
    match append.phase {
        AppendPhase::Locking { attempts } => attempts < MAX_RETRIES,
        AppendPhase::Waiting { attempts } => 0 < attempts <= MAX_RETRIES,
        _ => true,
    }
}

/// The append waits for what comes of `action`.
pub open spec fn go_on(
    append: AppendView,
    phase: AppendPhase,
    action: AppendActionView,
) -> AppendStepView {
    AppendStepView::Continue { append: AppendView { phase, ..append }, action }
}

/// The append ends with an error.
pub open spec fn fail(error: AppendErrorView) -> AppendStepView {
    AppendStepView::Done(Err(error))
}

/// What an append does with the next event.
pub open spec fn next_step(append: AppendView, event: AppendEventView) -> AppendStepView {
    match (append.phase, event) {
        (_, AppendEventView::Failed) => fail(AppendErrorView::Io),
        (AppendPhase::CreatingDirectory, _) => go_on(
            append,
            AppendPhase::Timing,
            AppendActionView::TellTime,
        ),
        (AppendPhase::Timing, AppendEventView::Time(ts)) => go_on(
            append,
            AppendPhase::Serialising,
            AppendActionView::Serialise(
                EntryView { session_id: append.session_id, ts, text: append.text },
            ),
        ),
        (AppendPhase::Timing, AppendEventView::ClockFailed(message)) => fail(
            AppendErrorView::Other("system clock before Unix epoch: "@ + message),
        ),
        (AppendPhase::Serialising, AppendEventView::Serialised(json)) => go_on(
            AppendView { line: json.push('\n'), ..append },
            AppendPhase::Opening,
            AppendActionView::Open { path: append.path },
        ),
        (AppendPhase::Serialising, AppendEventView::SerialiseFailed(message)) => fail(
            AppendErrorView::Other("failed to serialise history entry: "@ + message),
        ),
        (AppendPhase::Opening, _) => go_on(
            append,
            AppendPhase::Inspecting,
            AppendActionView::TellMode,
        ),
        (AppendPhase::Inspecting, AppendEventView::Mode(mode)) => if mode & 0o777 == 0o600 {
            go_on(append, AppendPhase::Locking { attempts: 0 }, AppendActionView::TryLock)
        } else {
            go_on(append, AppendPhase::Restricting, AppendActionView::SetMode(0o600))
        },
        (AppendPhase::Restricting, _) => go_on(
            append,
            AppendPhase::Locking { attempts: 0 },
            AppendActionView::TryLock,
        ),
        (AppendPhase::Locking { .. }, AppendEventView::Locked) => go_on(
            append,
            AppendPhase::Writing,
            AppendActionView::Write(append.line),
        ),
        (AppendPhase::Locking { attempts }, AppendEventView::WouldBlock) => go_on(
            append,
            AppendPhase::Waiting { attempts: (attempts + 1) as usize },
            AppendActionView::Sleep,
        ),
        (AppendPhase::Waiting { attempts }, _) => if attempts < MAX_RETRIES {
            go_on(append, AppendPhase::Locking { attempts }, AppendActionView::TryLock)
        } else {
            fail(
                AppendErrorView::WouldBlock(
                    "could not acquire exclusive lock on history file after multiple attempts"@,
                ),
            )
        },
        (AppendPhase::Writing, _) => AppendStepView::Done(Ok(())),
        _ => arbitrary(),
    }
}

impl Append {
    fn go_on(self, phase: AppendPhase, action: AppendAction) -> (step: AppendStep)
        ensures
            step@ == go_on(self@, phase, action@),
    {
        AppendStep::Continue { append: Append { phase, ..self }, action }
    }

    fn fail(self, error: AppendError) -> (step: AppendStep)
        ensures
            step@ == fail(error@),
    {
        AppendStep::Done(Err(error))
    }

    /// Asks for the JSON form of the record.
    fn serialise(self, ts: u64) -> (step: AppendStep)
        requires
            self.phase is Timing,
        ensures
            step@ == next_step(self@, AppendEventView::Time(ts)),
    {
        let entry = HistoryEntry {
            session_id: self.session_id.clone(),
            ts,
            text: self.text.clone(),
        };
        self.go_on(AppendPhase::Serialising, AppendAction::Serialise(entry))
    }

    /// Frames the record as a line and asks for the file.
    fn open(self, json: String) -> (step: AppendStep)
        requires
            self.phase is Serialising,
        ensures
            step@ == next_step(self@, AppendEventView::Serialised(json@)),
    {
        proof {
            reveal_strlit("\n");
            assert(json@ + "\n"@ =~= json@.push('\n'));
        }
        let line = join_text(json.as_str(), "\n");
        let path = self.path.clone();
        let append = Append { line, ..self };
        append.go_on(AppendPhase::Opening, AppendAction::Open { path })
    }

    /// Goes on with the append after `event`.
    ///
    /// The record is made and framed before the file is opened. The file is given the
    /// permissions that it must have, and the whole line is written at once under a lock, which
    /// is tried [`MAX_RETRIES`] times. Any failure ends the append.
    pub fn next(self, event: AppendEvent) -> (step: AppendStep)
        requires
            is_well_formed(self@),
            fits(self.phase, event@),
        ensures
            step@ == next_step(self@, event@),
            step matches AppendStep::Continue { append, .. } ==> is_well_formed(append@),
    {
        match event {
            AppendEvent::DirectoryCreated => self.go_on(
                AppendPhase::Timing,
                AppendAction::TellTime,
            ),
            AppendEvent::Time(ts) => self.serialise(ts),
            AppendEvent::ClockFailed(message) => self.fail(
                AppendError::Other(
                    join_text("system clock before Unix epoch: ", message.as_str()),
                ),
            ),
            AppendEvent::Serialised(json) => self.open(json),
            AppendEvent::SerialiseFailed(message) => self.fail(
                AppendError::Other(
                    join_text("failed to serialise history entry: ", message.as_str()),
                ),
            ),
            AppendEvent::Opened => self.go_on(AppendPhase::Inspecting, AppendAction::TellMode),
            AppendEvent::Mode(mode) => match ensure_owner_only_permissions(mode) {
                Some(change) => self.go_on(
                    AppendPhase::Restricting,
                    AppendAction::SetMode(change),
                ),
                None => self.go_on(
                    AppendPhase::Locking { attempts: 0 },
                    AppendAction::TryLock,
                ),
            },
            AppendEvent::ModeSet => self.go_on(
                AppendPhase::Locking { attempts: 0 },
                AppendAction::TryLock,
            ),
            AppendEvent::Locked => {
                let line = self.line.clone();
                self.go_on(AppendPhase::Writing, AppendAction::Write(line))
            },
            AppendEvent::WouldBlock => match self.phase {
                AppendPhase::Locking { attempts } => self.go_on(
                    AppendPhase::Waiting { attempts: attempts + 1 },
                    AppendAction::Sleep,
                ),
                _ => vstd::pervasive::unreached(),
            },
            AppendEvent::Slept => match self.phase {
                AppendPhase::Waiting { attempts } => if attempts < MAX_RETRIES {
                    self.go_on(AppendPhase::Locking { attempts }, AppendAction::TryLock)
                } else {
                    self.fail(
                        AppendError::WouldBlock(
                            "could not acquire exclusive lock on history file after multiple attempts".to_owned(),
                        ),
                    )
                },
                _ => vstd::pervasive::unreached(),
            },
            AppendEvent::Written => AppendStep::Done(Ok(())),
            AppendEvent::Failed => self.fail(AppendError::Io),
        }
    }
}

/// How an append starts.
pub open spec fn start_of_append(
    text: Seq<char>,
    conversation_id: Seq<char>,
    config: Config,
) -> AppendStepView {
    match config.history.persistence {
        HistoryPersistence::SaveNone => AppendStepView::Done(Ok(())),
        HistoryPersistence::SaveAll => AppendStepView::Continue {
            append: AppendView {
                path: message_history::history_path(config),
                session_id: conversation_id,
                text,
                line: Seq::empty(),
                phase: AppendPhase::CreatingDirectory,
            },
            action: AppendActionView::CreateDirectory {
                path: path::path_components(config.codex_home),
            },
        },
    }
}

/// Starts to append a record with this text and the current time to the history file, unless the
/// history is not to be saved.
pub fn append_entry(text: &str, conversation_id: &str, config: &Config) -> (step: AppendStep)
    ensures
        step@ == start_of_append(text@, conversation_id@, *config),
        step matches AppendStep::Continue { append, .. } ==> is_well_formed(append@),
{
    match config.history.persistence {
        HistoryPersistence::SaveAll => {},
        HistoryPersistence::SaveNone => {
            return AppendStep::Done(Ok(()));
        },
    }
    let path = history_filepath(config);
    proof {
        message_history::history_file_has_a_directory(*config);
    }
    match parent_directory(&path) {
        Some(parent) => {
            proof {
                assert(message_history::history_path(*config).drop_last()
                    =~= path::path_components(config.codex_home));
            }
            let append = Append {
                path,
                session_id: conversation_id.to_owned(),
                text: text.to_owned(),
                line: String::new(),
                phase: AppendPhase::CreatingDirectory,
            };
            AppendStep::Continue {
                append,
                action: AppendAction::CreateDirectory { path: parent },
            }
        },
        None => vstd::pervasive::unreached(),
    }
}

/// An append that is to be saved starts with the directory of the history file, and is for that
/// file and with this text; one that is not to be saved has ended.
pub proof fn append_starts_with_the_directory(
    text: Seq<char>,
    conversation_id: Seq<char>,
    config: Config,
)
    ensures
        match (config.history.persistence, start_of_append(text, conversation_id, config)) {
            (HistoryPersistence::SaveAll, AppendStepView::Continue { append, action }) => {
                &&& append.path == path::path_components(config.codex_home).push(
                    encode_utf8("history.jsonl"@),
                )
                &&& append.session_id == conversation_id
                &&& append.text == text
                &&& append.phase is CreatingDirectory
                &&& action == AppendActionView::CreateDirectory {
                    path: path::path_components(config.codex_home),
                }
            },
            (HistoryPersistence::SaveNone, AppendStepView::Done(end)) => end == Ok::<
                (),
                AppendErrorView,
            >(()),
            _ => false,
        },
{
}

/// An append stays with its file, its text and its session. The record that it has encoded is made
/// of these and of the time that it was told, the line that it writes is the encoded record with a
/// line feed, it opens no other file, and it gives no other permissions than those of the owner,
/// and these only if the file does not have them. After a refused try it pauses.
pub proof fn append_stays_with_its_record(append: AppendView, event: AppendEventView)
    requires
        fits(append.phase, event),
        next_step(append, event) is Continue,
    ensures
        ({
            let next = next_step(append, event)->append;
            let action = next_step(append, event)->action;
            &&& next.path == append.path
            &&& next.session_id == append.session_id
            &&& next.text == append.text
            &&& event matches AppendEventView::Serialised(json) ==> next.line == json + seq!['\n']
            &&& event !is Serialised ==> next.line == append.line
            &&& event matches AppendEventView::Time(ts) ==> action is Serialise
                && action->Serialise_0.ts == ts
            &&& action matches AppendActionView::Serialise(entry) ==> event is Time
                && entry.session_id == append.session_id && entry.text == append.text
            &&& action matches AppendActionView::Open { path } ==> path == append.path
            &&& action matches AppendActionView::SetMode(mode) ==> mode == 0o600 && event is Mode
            &&& event matches AppendEventView::Mode(mode) ==> (action is SetMode <==> mode & 0o777
                != 0o600)
            &&& append.phase is Locking && event is WouldBlock ==> action is Sleep && next.phase
                == (AppendPhase::Waiting {
                attempts: (append.phase->Locking_attempts + 1) as usize,
            })
            &&& action matches AppendActionView::Write(line) ==> event is Locked && line
                == append.line
        }),
{
    if event is Serialised {
        assert(next_step(append, event)->append.line =~= event->Serialised_0 + seq!['\n']);
    }
}

/// An append succeeds only when its line has been written.
pub proof fn append_succeeds_when_it_has_written(append: AppendView, event: AppendEventView)
    requires
        fits(append.phase, event),
    ensures
        next_step(append, event) == AppendStepView::Done(Ok(())) <==> event is Written,
{
}

/// An append that meets a failure ends with it: a clock or a record that is not right is named with
/// what was said of it, a lock that was refused ten times is named as such, and other failures
/// speak for themselves.
pub proof fn failed_append_tells_what_was_met(
    append: AppendView,
    message: Seq<char>,
    attempts: usize,
)
    ensures
        next_step(append, AppendEventView::Failed) == AppendStepView::Done(
            Err(AppendErrorView::Io),
        ),
        append.phase is Timing ==> next_step(append, AppendEventView::ClockFailed(message))
            == AppendStepView::Done(
            Err(AppendErrorView::Other("system clock before Unix epoch: "@ + message)),
        ),
        append.phase is Serialising ==> next_step(
            append,
            AppendEventView::SerialiseFailed(message),
        ) == AppendStepView::Done(
            Err(AppendErrorView::Other("failed to serialise history entry: "@ + message)),
        ),
        append.phase == (AppendPhase::Waiting { attempts }) && attempts >= 10 ==> next_step(
            append,
            AppendEventView::Slept,
        ) == AppendStepView::Done(
            Err(
                AppendErrorView::WouldBlock(
                    "could not acquire exclusive lock on history file after multiple attempts"@,
                ),
            ),
        ),
        append.phase == (AppendPhase::Waiting { attempts }) && attempts < 10 ==> next_step(
            append,
            AppendEventView::Slept,
        ) is Continue,
{
}

/// An append takes whatever can come of what it asks for.
pub proof fn append_takes_what_can_come(
    attempts: usize,
    ts: u64,
    mode: u32,
    text: Seq<char>,
)
    ensures
        fits(AppendPhase::CreatingDirectory, AppendEventView::DirectoryCreated),
        fits(AppendPhase::CreatingDirectory, AppendEventView::Failed),
        fits(AppendPhase::Timing, AppendEventView::Time(ts)),
        fits(AppendPhase::Timing, AppendEventView::ClockFailed(text)),
        fits(AppendPhase::Serialising, AppendEventView::Serialised(text)),
        fits(AppendPhase::Serialising, AppendEventView::SerialiseFailed(text)),
        fits(AppendPhase::Opening, AppendEventView::Opened),
        fits(AppendPhase::Opening, AppendEventView::Failed),
        fits(AppendPhase::Inspecting, AppendEventView::Mode(mode)),
        fits(AppendPhase::Inspecting, AppendEventView::Failed),
        fits(AppendPhase::Restricting, AppendEventView::ModeSet),
        fits(AppendPhase::Restricting, AppendEventView::Failed),
        fits(AppendPhase::Locking { attempts }, AppendEventView::Locked),
        fits(AppendPhase::Locking { attempts }, AppendEventView::WouldBlock),
        fits(AppendPhase::Locking { attempts }, AppendEventView::Failed),
        fits(AppendPhase::Waiting { attempts }, AppendEventView::Slept),
        fits(AppendPhase::Writing, AppendEventView::Written),
        fits(AppendPhase::Writing, AppendEventView::Failed),
{
}

/// The views of appends, of their errors and of their steps hold all that these say.
pub proof fn views_hold_all_of_an_append(append: Append, error: AppendError, step: AppendStep)
    ensures
        append@.path == path::path_components(append.path),
        append@.session_id == append.session_id@,
        append@.text == append.text@,
        append@.line == append.line@,
        append@.phase == append.phase,
        match error {
            AppendError::Io => error@ is Io,
            AppendError::Other(message) => error@ == AppendErrorView::Other(message@),
            AppendError::WouldBlock(message) => error@ == AppendErrorView::WouldBlock(message@),
        },
        match step {
            AppendStep::Continue { append, action } => step@ == (AppendStepView::Continue {
                append: append@,
                action: action@,
            }),
            AppendStep::Done(Ok(())) => step@ == AppendStepView::Done(Ok(())),
            AppendStep::Done(Err(error)) => step@ == AppendStepView::Done(Err(error@)),
        },
{
}

/// The views of actions and events hold all that these say.
pub proof fn views_hold_all_of_actions_and_events(action: AppendAction, event: AppendEvent)
    ensures
        match action {
            AppendAction::CreateDirectory { path } => action@
                == AppendActionView::CreateDirectory { path: path::path_components(path) },
            AppendAction::TellTime => action@ is TellTime,
            AppendAction::Serialise(entry) => action@ == AppendActionView::Serialise(
                EntryView { session_id: entry.session_id@, ts: entry.ts, text: entry.text@ },
            ),
            AppendAction::Open { path } => action@ == AppendActionView::Open {
                path: path::path_components(path),
            },
            AppendAction::TellMode => action@ is TellMode,
            AppendAction::SetMode(mode) => action@ == AppendActionView::SetMode(mode),
            AppendAction::TryLock => action@ is TryLock,
            AppendAction::Sleep => action@ is Sleep,
            AppendAction::Write(line) => action@ == AppendActionView::Write(line@),
        },
        match event {
            AppendEvent::DirectoryCreated => event@ is DirectoryCreated,
            AppendEvent::Time(ts) => event@ == AppendEventView::Time(ts),
            AppendEvent::ClockFailed(message) => event@ == AppendEventView::ClockFailed(message@),
            AppendEvent::Serialised(json) => event@ == AppendEventView::Serialised(json@),
            AppendEvent::SerialiseFailed(message) => event@ == AppendEventView::SerialiseFailed(
                message@,
            ),
            AppendEvent::Opened => event@ is Opened,
            AppendEvent::Mode(mode) => event@ == AppendEventView::Mode(mode),
            AppendEvent::ModeSet => event@ is ModeSet,
            AppendEvent::Locked => event@ is Locked,
            AppendEvent::WouldBlock => event@ is WouldBlock,
            AppendEvent::Slept => event@ is Slept,
            AppendEvent::Written => event@ is Written,
            AppendEvent::Failed => event@ is Failed,
        },
{
}

/// The file belongs to its owner only: a mode is left as it is exactly if its permissions are
/// reading and writing for the owner and nothing else, and these are what a file is created with.
pub proof fn file_belongs_to_its_owner()
    ensures
        OWNER_ONLY_MODE == 0o600,
        PERMISSION_BITS == 0o777,
{
}

} // verus!
