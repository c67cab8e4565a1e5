//! The global, append-only message history.
//!
//! The history is a file with one JSON record per line. A lookup reads it through a cache that
//! holds the records read so far and the offset up to which the file has been read. The file
//! itself is out of this module's hands: a lookup says what to do next as a [`LookupAction`] and
//! is told what came of it as a [`LookupEvent`].

pub mod append;
pub mod concurrent;
pub mod framing;
pub mod load;
pub mod log;
pub mod metadata;
pub mod roundtrip;

use crate::config::Config;
use crate::path;
use crate::path::{join_file_name, same_path};
use crate::text;
use crate::text::trim_line_end;
use std::collections::HashMap;
use std::path::PathBuf;
use vstd::prelude::*;
use vstd::utf8::*;

verus! {

/// The name of the history file inside the home directory.
pub const HISTORY_FILENAME: &'static str = "history.jsonl";

/// How often a lock on the history file is tried.
pub const MAX_RETRIES: usize = 10;

/// How long to wait after a failed try, in milliseconds.
pub const RETRY_SLEEP_MS: u64 = 100;

/// One record of the history.
#[derive(Debug)]
pub struct HistoryEntry {
    pub session_id: String,
    /// Seconds since the Unix epoch.
    pub ts: u64,
    pub text: String,
}

/// What a record says.
#[verifier::ext_equal]
pub struct EntryView {
    pub session_id: Seq<char>,
    pub ts: u64,
    pub text: Seq<char>,
}

impl View for HistoryEntry {
    type V = EntryView;

    open spec fn view(&self) -> EntryView {
        EntryView { session_id: self.session_id@, ts: self.ts, text: self.text@ }
    }
}

impl Clone for HistoryEntry {
    fn clone(&self) -> (copy: Self)
        ensures
            copy == *self,
    {
        HistoryEntry { session_id: self.session_id.clone(), ts: self.ts, text: self.text.clone() }
    }
}

/// What has been read of one history file.
#[derive(Debug)]
pub struct HistoryCache {
    pub path: PathBuf,
    /// How much of the file has been read, in bytes.
    pub byte_offset: u64,
    /// The records in that part of the file.
    pub entries: Vec<HistoryEntry>,
}

/// What a cache holds.
#[verifier::ext_equal]
pub struct CacheView {
    pub path: Seq<Seq<u8>>,
    pub byte_offset: nat,
    pub entries: Seq<HistoryEntry>,
}

impl View for HistoryCache {
    type V = CacheView;

    open spec fn view(&self) -> CacheView {
        CacheView {
            path: path::path_components(self.path),
            byte_offset: self.byte_offset as nat,
            entries: self.entries@,
        }
    }
}

/// A cache that has read nothing yet.
pub open spec fn empty_cache(path: Seq<Seq<u8>>) -> CacheView {
    CacheView { path, byte_offset: 0, entries: Seq::empty() }
}

impl HistoryCache {
    /// A cache of the file at `path` that has read nothing yet.
    pub fn new(path: PathBuf) -> (cache: Self)
        ensures
            cache.path == path,
            cache@ == empty_cache(path::path_components(path)),
    {
        HistoryCache { path, byte_offset: 0, entries: Vec::new() }
    }

    /// Forgets what was read and starts over with the file at `path`.
    pub fn reset(&mut self, path: PathBuf)
        ensures
            final(self).path == path,
            final(self)@ == empty_cache(path::path_components(path)),
    {
        self.path = path;
        self.byte_offset = 0;
        self.entries.clear();
    }

    /// The record at `offset`, if it has been read.
    pub fn entry_at(&self, offset: usize) -> (entry: Option<HistoryEntry>)
        ensures
            entry == cached_entry(self@, offset as nat),
    {
        if offset < self.entries.len() {
            Some(self.entries[offset].clone())
        } else {
            None
        }
    }
}

/// The record at `offset`, if it has been read.
pub open spec fn cached_entry(cache: CacheView, offset: nat) -> Option<HistoryEntry> {
    if offset < cache.entries.len() {
        Some(cache.entries[offset as int])
    } else {
        None
    }
}

/// Why a lookup failed; the texts are the messages of the errors that were met.
#[derive(Debug)]
pub enum CacheAccessError {
    Io(String),
    /// Someone else held a lock on the file at every try.
    WouldBlock(String),
    Parse(String),
    /// The file is not the one that was asked for.
    LogIdMismatch,
}

/// What an error says.
#[verifier::ext_equal]
pub enum FailureView {
    Io(Seq<char>),
    WouldBlock(Seq<char>),
    Parse(Seq<char>),
    LogIdMismatch,
}

impl View for CacheAccessError {
    type V = FailureView;

    open spec fn view(&self) -> FailureView {
        match *self {
            CacheAccessError::Io(message) => FailureView::Io(message@),
            CacheAccessError::WouldBlock(message) => FailureView::WouldBlock(message@),
            CacheAccessError::Parse(message) => FailureView::Parse(message@),
            CacheAccessError::LogIdMismatch => FailureView::LogIdMismatch,
        }
    }
}

/// How a pass over the file ended: with new records, or with none.
#[derive(Debug, Clone, Copy, PartialEq, Eq, Structural)]
pub enum ReadOutcome {
    Advanced,
    Eof,
}

/// What a lookup is waiting for.
#[derive(Debug, Clone, Copy)]
pub enum LookupPhase {
    /// The file to be opened.
    Opening,
    /// A shared lock, which could not be had `attempts` times in this pass.
    Locking { attempts: usize },
    /// The end of the pause after a failed try.
    Waiting { attempts: usize },
    /// The file to be positioned at the end of what was read.
    Seeking,
    /// The next line of the pass; `read_bytes` were read in it, and `appended` says whether they
    /// held a record.
    Reading { read_bytes: u64, appended: bool },
    /// The record in the line that was just read.
    Parsing { read_bytes: u64, appended: bool },
}

/// A lookup that has not ended.
#[derive(Debug)]
pub struct Lookup {
    pub log_id: u64,
    pub offset: usize,
    pub cache: HistoryCache,
    pub phase: LookupPhase,
}

/// Where a lookup stands.
#[verifier::ext_equal]
pub struct LookupView {
    pub log_id: u64,
    pub offset: nat,
    pub cache: CacheView,
    pub phase: LookupPhase,
}

impl View for Lookup {
    type V = LookupView;

    open spec fn view(&self) -> LookupView {
        LookupView {
            log_id: self.log_id,
            offset: self.offset as nat,
            cache: self.cache@,
            phase: self.phase,
        }
    }
}

/// What is to be done next for a lookup.
#[derive(Debug)]
pub enum LookupAction {
    /// Open the file at `path` for reading, closing the one of an earlier pass, and tell its
    /// identifier.
    Open { path: PathBuf },
    /// Try to take a shared lock on the open file.
    TryLockShared,
    /// Wait for [`RETRY_SLEEP_MS`].
    Sleep,
    /// Go to this byte offset in the open file.
    Seek(u64),
    /// Read one line, with its end; nothing is left when it is empty.
    ReadLine,
    /// Decode a record.
    Parse(String),
}

/// What an action asks for.
#[verifier::ext_equal]
pub enum LookupActionView {
    Open { path: Seq<Seq<u8>> },
    TryLockShared,
    Sleep,
    Seek(nat),
    ReadLine,
    Parse(Seq<char>),
}

impl View for LookupAction {
    type V = LookupActionView;

    open spec fn view(&self) -> LookupActionView {
        match *self {
            LookupAction::Open { path } => LookupActionView::Open {
                path: path::path_components(path),
            },
            LookupAction::TryLockShared => LookupActionView::TryLockShared,
            LookupAction::Sleep => LookupActionView::Sleep,
            LookupAction::Seek(to) => LookupActionView::Seek(to as nat),
            LookupAction::ReadLine => LookupActionView::ReadLine,
            LookupAction::Parse(record) => LookupActionView::Parse(record@),
        }
    }
}

/// What came of an action.
#[derive(Debug)]
pub enum LookupEvent {
    /// The file is open, and this is its identifier.
    Opened { log_id: u64 },
    Locked,
    /// Someone else holds a lock.
    WouldBlock,
    Slept,
    Sought,
    /// The line that was read.
    Line(String),
    Parsed(HistoryEntry),
    ParseFailed(String),
    /// The file could not be opened, locked, positioned or read.
    Failed(String),
}

/// What an event tells.
#[verifier::ext_equal]
pub enum LookupEventView {
    Opened { log_id: u64 },
    Locked,
    WouldBlock,
    Slept,
    Sought,
    Line(Seq<char>),
    Parsed(HistoryEntry),
    ParseFailed(Seq<char>),
    Failed(Seq<char>),
}

impl View for LookupEvent {
    type V = LookupEventView;

    open spec fn view(&self) -> LookupEventView {
        match *self {
            LookupEvent::Opened { log_id } => LookupEventView::Opened { log_id },
            LookupEvent::Locked => LookupEventView::Locked,
            LookupEvent::WouldBlock => LookupEventView::WouldBlock,
            LookupEvent::Slept => LookupEventView::Slept,
            LookupEvent::Sought => LookupEventView::Sought,
            LookupEvent::Line(line) => LookupEventView::Line(line@),
            LookupEvent::Parsed(entry) => LookupEventView::Parsed(entry),
            LookupEvent::ParseFailed(message) => LookupEventView::ParseFailed(message@),
            LookupEvent::Failed(message) => LookupEventView::Failed(message@),
        }
    }
}

/// How a lookup goes on.
#[derive(Debug)]
pub enum LookupStep {
    /// Do `action` and come back with what came of it.
    Continue { lookup: Lookup, action: LookupAction },
    /// The lookup has ended.
    Done { entry: Option<HistoryEntry>, failure: Option<CacheAccessError> },
}

/// How a lookup goes on, and what is left of its cache when it ends.
#[verifier::ext_equal]
pub enum LookupStepView {
    Continue { lookup: LookupView, action: LookupActionView },
    Done { entry: Option<HistoryEntry>, failure: Option<FailureView>, kept: Option<CacheView> },
}

/// `step` says what `expected` says.
pub open spec fn is_step(step: LookupStep, expected: LookupStepView) -> bool {
    match (step, expected) {
        (
            LookupStep::Continue { lookup, action },
            LookupStepView::Continue { lookup: next, action: asked },
        ) => lookup@ == next && action@ == asked,
        (
            LookupStep::Done { entry, failure },
            LookupStepView::Done { entry: found, failure: met, .. },
        ) => {
            &&& entry == found
            &&& match (failure, met) {
                (Some(failure), Some(met)) => failure@ == met,
                (None, None) => true,
                _ => false,
            }
        },
        _ => false,
    }
}

/// The cache that a lookup leaves behind, if any, has been put back.
pub open spec fn is_put_back(
    before: Map<u64, HistoryCache>,
    after: Map<u64, HistoryCache>,
    log_id: u64,
    expected: LookupStepView,
) -> bool {
    match expected {
        LookupStepView::Done { kept: Some(cache), .. } => {
            &&& after == before.insert(log_id, after[log_id])
            &&& after[log_id]@ == cache
        },
        _ => after == before,
    }
}

/// The event can come of the action that a lookup in this phase has asked for.
pub open spec fn fits(phase: LookupPhase, event: LookupEventView) -> bool {
    match phase {
        LookupPhase::Opening => event is Opened || event is Failed,
        LookupPhase::Locking { .. } => event is Locked || event is WouldBlock || event is Failed,
        LookupPhase::Waiting { .. } => event is Slept,
        LookupPhase::Seeking => event is Sought || event is Failed,
        LookupPhase::Reading { .. } => event is Line || event is Failed,
        LookupPhase::Parsing { .. } => event is Parsed || event is ParseFailed,
    }
}

/// The message of a lookup that could not have its lock.
pub open spec fn shared_lock_message() -> Seq<char> {
    "could not acquire shared lock on history file after multiple attempts"@
}

/// The lookup waits for what comes of `action`.
pub open spec fn go_on(
    lookup: LookupView,
    phase: LookupPhase,
    action: LookupActionView,
) -> LookupStepView {
    LookupStepView::Continue { lookup: LookupView { phase, ..lookup }, action }
}

/// A lookup that fails finds nothing, and its cache is given up.
pub open spec fn fail(failure: FailureView) -> LookupStepView {
    LookupStepView::Done { entry: None, failure: Some(failure), kept: None }
}

/// A lookup that has read enough gives the record that it was asked for, if there is one.
pub open spec fn finish(lookup: LookupView) -> LookupStepView {
    LookupStepView::Done {
        entry: cached_entry(lookup.cache, lookup.offset),
        failure: None,
        kept: Some(lookup.cache),
    }
}

/// After a pass: another one if it found records and the one that is sought is still missing.
pub open spec fn after_pass(lookup: LookupView, outcome: ReadOutcome) -> LookupStepView {
    if outcome is Advanced && lookup.cache.entries.len() <= lookup.offset {
        go_on(lookup, LookupPhase::Opening, LookupActionView::Open { path: lookup.cache.path })
    } else {
        finish(lookup)
    }
}

/// At the end of a pass, what was read in it counts as read.
pub open spec fn end_pass(lookup: LookupView, read_bytes: nat, appended: bool) -> LookupStepView {
    after_pass(
        LookupView {
            cache: CacheView {
                byte_offset: lookup.cache.byte_offset + read_bytes,
                ..lookup.cache
            },
            ..lookup
        },
        if appended {
            ReadOutcome::Advanced
        } else {
            ReadOutcome::Eof
        },
    )
}

/// What a lookup does with the next event.
pub open spec fn next_step(lookup: LookupView, event: LookupEventView) -> LookupStepView {
    match (lookup.phase, event) {
        (LookupPhase::Opening, LookupEventView::Opened { log_id }) => if log_id
            != lookup.log_id {
            fail(FailureView::LogIdMismatch)
        } else if lookup.offset < lookup.cache.entries.len() {
            finish(lookup)
        } else {
            go_on(
                lookup,
                LookupPhase::Locking { attempts: 0 },
                LookupActionView::TryLockShared,
            )
        },
        (LookupPhase::Locking { .. }, LookupEventView::Locked) => go_on(
            lookup,
            LookupPhase::Seeking,
            LookupActionView::Seek(lookup.cache.byte_offset),
        ),
        (LookupPhase::Locking { attempts }, LookupEventView::WouldBlock) => go_on(
            lookup,
            LookupPhase::Waiting { attempts: (attempts + 1) as usize },
            LookupActionView::Sleep,
        ),
        (LookupPhase::Waiting { attempts }, _) => if attempts < MAX_RETRIES {
            go_on(lookup, LookupPhase::Locking { attempts }, LookupActionView::TryLockShared)
        } else {
            fail(FailureView::WouldBlock(shared_lock_message()))
        },
        (LookupPhase::Seeking, LookupEventView::Sought) => go_on(
            lookup,
            LookupPhase::Reading { read_bytes: 0, appended: false },
            LookupActionView::ReadLine,
        ),
        (LookupPhase::Reading { read_bytes, appended }, LookupEventView::Line(line)) => {
            let read = (read_bytes + encode_utf8(line).len()) as u64;
            let record = text::without_line_end(line);
            if line.len() == 0 {
                end_pass(lookup, read_bytes as nat, appended)
            } else if record.len() == 0 {
                go_on(
                    lookup,
                    LookupPhase::Reading { read_bytes: read, appended },
                    LookupActionView::ReadLine,
                )
            } else {
                go_on(
                    lookup,
                    LookupPhase::Parsing { read_bytes: read, appended },
                    LookupActionView::Parse(record),
                )
            }
        },
        (LookupPhase::Parsing { read_bytes, .. }, LookupEventView::Parsed(entry)) => {
            let grown = LookupView {
                cache: CacheView { entries: lookup.cache.entries.push(entry), ..lookup.cache },
                ..lookup
            };
            if grown.cache.entries.len() > lookup.offset {
                end_pass(grown, read_bytes as nat, true)
            } else {
                go_on(
                    grown,
                    LookupPhase::Reading { read_bytes, appended: true },
                    LookupActionView::ReadLine,
                )
            }
        },
        (_, LookupEventView::ParseFailed(message)) => fail(FailureView::Parse(message)),
        (_, LookupEventView::Failed(message)) => fail(FailureView::Io(message)),
        _ => arbitrary(),
    }
}

/// The offsets of a lookup fit into 64 bits, and it counts its tries.
pub open spec fn is_well_formed(lookup: LookupView) -> bool {
    &&& lookup.cache.byte_offset <= u64::MAX
    &&& match lookup.phase {
        LookupPhase::Locking { attempts } => attempts < MAX_RETRIES,
        LookupPhase::Waiting { attempts } => 0 < attempts <= MAX_RETRIES,
        LookupPhase::Reading { read_bytes, .. } => lookup.cache.byte_offset + read_bytes
            <= u64::MAX,
        LookupPhase::Parsing { read_bytes, .. } => lookup.cache.byte_offset + read_bytes
            <= u64::MAX,
        _ => true,
    }
}

/// The end of the line that was read has an offset that fits into 64 bits.
pub open spec fn has_room_for(lookup: LookupView, event: LookupEventView) -> bool {
    match (lookup.phase, event) {
        (LookupPhase::Reading { read_bytes, .. }, LookupEventView::Line(line)) =>
            lookup.cache.byte_offset + read_bytes + encode_utf8(line).len() <= u64::MAX,
        _ => true,
    }
}

impl Lookup {
    fn fail(self, failure: CacheAccessError) -> (step: LookupStep)
        ensures
            is_step(step, fail(failure@)),
    {
        LookupStep::Done { entry: None, failure: Some(failure) }
    }

    fn go_on(self, phase: LookupPhase, action: LookupAction) -> (step: LookupStep)
        ensures
            is_step(step, go_on(self@, phase, action@)),
    {
        LookupStep::Continue { lookup: Lookup { phase, ..self }, action }
    }

    /// Ends the lookup and puts its cache back.
    fn finish(self, caches: &mut HashMap<u64, HistoryCache>) -> (step: LookupStep)
        ensures
            is_step(step, finish(self@)),
            is_put_back(old(caches)@, final(caches)@, self.log_id, finish(self@)),
    {
        let entry = self.cache.entry_at(self.offset);
        caches.insert(self.log_id, self.cache);
        LookupStep::Done { entry, failure: None }
    }

    /// Decides after a pass whether another one is needed.
    fn load_until(self, outcome: ReadOutcome, caches: &mut HashMap<u64, HistoryCache>) -> (step:
        LookupStep)
        ensures
            is_step(step, after_pass(self@, outcome)),
            is_put_back(
                old(caches)@,
                final(caches)@,
                self.log_id,
                after_pass(self@, outcome),
            ),
    {
        match outcome {
            ReadOutcome::Advanced => if self.cache.entries.len() <= self.offset {
                let path = self.cache.path.clone();
                self.go_on(LookupPhase::Opening, LookupAction::Open { path })
            } else {
                self.finish(caches)
            },
            ReadOutcome::Eof => self.finish(caches),
        }
    }

    /// Ends a pass in which `read_bytes` were read.
    fn end_pass(
        self,
        read_bytes: u64,
        appended: bool,
        caches: &mut HashMap<u64, HistoryCache>,
    ) -> (step: LookupStep)
        requires
            self.cache.byte_offset + read_bytes <= u64::MAX,
        ensures
            is_step(step, end_pass(self@, read_bytes as nat, appended)),
            is_put_back(
                old(caches)@,
                final(caches)@,
                self.log_id,
                end_pass(self@, read_bytes as nat, appended),
            ),
    {
        let mut lookup = self;
        lookup.cache.byte_offset = lookup.cache.byte_offset + read_bytes;
        let outcome = if appended {
            ReadOutcome::Advanced
        } else {
            ReadOutcome::Eof
        };
        lookup.load_until(outcome, caches)
    }

    /// Goes on with the next line of a pass.
    fn read_line(
        self,
        read_bytes: u64,
        appended: bool,
        line: String,
        caches: &mut HashMap<u64, HistoryCache>,
    ) -> (step: LookupStep)
        requires
            self.phase == (LookupPhase::Reading { read_bytes, appended }),
            self.cache.byte_offset + read_bytes + encode_utf8(line@).len() <= u64::MAX,
        ensures
            is_step(step, next_step(self@, LookupEventView::Line(line@))),
            is_put_back(
                old(caches)@,
                final(caches)@,
                self.log_id,
                next_step(self@, LookupEventView::Line(line@)),
            ),
    {
        if line.as_str().is_empty() {
            return self.end_pass(read_bytes, appended, caches);
        }
        let read_bytes: u64 = read_bytes + line.as_str().as_bytes().len() as u64;
        let record: &str = trim_line_end(line.as_str());
        if record.is_empty() {
            self.go_on(
                LookupPhase::Reading { read_bytes, appended },
                LookupAction::ReadLine,
            )
        } else {
            self.go_on(
                LookupPhase::Parsing { read_bytes, appended },
                LookupAction::Parse(record.to_owned()),
            )
        }
    }

    /// Takes in the record of the line that was just read.
    fn take_record(
        self,
        read_bytes: u64,
        entry: HistoryEntry,
        caches: &mut HashMap<u64, HistoryCache>,
    ) -> (step: LookupStep)
        requires
            self.phase is Parsing,
            self.phase->Parsing_read_bytes == read_bytes,
            self.cache.byte_offset + read_bytes <= u64::MAX,
        ensures
            is_step(step, next_step(self@, LookupEventView::Parsed(entry))),
            is_put_back(
                old(caches)@,
                final(caches)@,
                self.log_id,
                next_step(self@, LookupEventView::Parsed(entry)),
            ),
    {
        let mut lookup = self;
        lookup.cache.entries.push(entry);
        if lookup.cache.entries.len() > lookup.offset {
            lookup.end_pass(read_bytes, true, caches)
        } else {
            lookup.go_on(
                LookupPhase::Reading { read_bytes, appended: true },
                LookupAction::ReadLine,
            )
        }
    }

    /// Goes on with the lookup after `event`.
    ///
    /// A pass opens the file, checks that it is the one that was asked for, locks it, and reads
    /// it from where the last pass stopped, line by line, up to the record that is sought or the
    /// end. Lines that hold nothing but their end are skipped. The lock is tried
    /// [`MAX_RETRIES`] times. Any failure ends the lookup without a record and gives the cache
    /// up.
    pub fn read_more(
        self,
        event: LookupEvent,
        caches: &mut HashMap<u64, HistoryCache>,
    ) -> (step: LookupStep)
        requires
            is_well_formed(self@),
            fits(self.phase, event@),
            has_room_for(self@, event@),
        ensures
            is_step(step, next_step(self@, event@)),
            is_put_back(old(caches)@, final(caches)@, self.log_id, next_step(self@, event@)),
            step matches LookupStep::Continue { lookup, .. } ==> is_well_formed(lookup@),
    {
        match event {
            LookupEvent::Opened { log_id } => if log_id != self.log_id {
                self.fail(CacheAccessError::LogIdMismatch)
            } else if self.offset < self.cache.entries.len() {
                self.finish(caches)
            } else {
                self.go_on(
                    LookupPhase::Locking { attempts: 0 },
                    LookupAction::TryLockShared,
                )
            },
            LookupEvent::Locked => {
                let start: u64 = self.cache.byte_offset;
                self.go_on(LookupPhase::Seeking, LookupAction::Seek(start))
            },
            LookupEvent::WouldBlock => match self.phase {
                LookupPhase::Locking { attempts } => self.go_on(
                    LookupPhase::Waiting { attempts: attempts + 1 },
                    LookupAction::Sleep,
                ),
                _ => vstd::pervasive::unreached(),
            },
            LookupEvent::Slept => match self.phase {
                LookupPhase::Waiting { attempts } => if attempts < MAX_RETRIES {
                    self.go_on(LookupPhase::Locking { attempts }, LookupAction::TryLockShared)
                } else {
                    self.fail(
                        CacheAccessError::WouldBlock(
                            "could not acquire shared lock on history file after multiple attempts".to_owned(),
                        ),
                    )
                },
                _ => vstd::pervasive::unreached(),
            },
            LookupEvent::Sought => self.go_on(
                LookupPhase::Reading { read_bytes: 0, appended: false },
                LookupAction::ReadLine,
            ),
            LookupEvent::Line(line) => match self.phase {
                LookupPhase::Reading { read_bytes, appended } => self.read_line(
                    read_bytes,
                    appended,
                    line,
                    caches,
                ),
                _ => vstd::pervasive::unreached(),
            },
            LookupEvent::Parsed(entry) => match self.phase {
                LookupPhase::Parsing { read_bytes, .. } => self.take_record(
                    read_bytes,
                    entry,
                    caches,
                ),
                _ => vstd::pervasive::unreached(),
            },
            LookupEvent::ParseFailed(message) => self.fail(CacheAccessError::Parse(message)),
            LookupEvent::Failed(message) => self.fail(CacheAccessError::Io(message)),
        }
    }
}

/// The caches of a program that has not read any history file.
pub fn history_cache() -> (caches: HashMap<u64, HistoryCache>)
    ensures
        caches@ == Map::<u64, HistoryCache>::empty(),
{
    HashMap::new()
}

/// The components of the path of the history file.
pub open spec fn history_path(config: Config) -> Seq<Seq<u8>> {
    path::path_components(config.codex_home).push(encode_utf8("history.jsonl"@))
}

pub(crate) proof fn history_file_has_a_directory(config: Config)
    ensures
        path::has_parent(history_path(config)),
{
    reveal_strlit("history.jsonl");
    assert("history.jsonl"@.len() == 13);
    path::lemma_files_have_parents(history_path(config), "history.jsonl"@);
}

/// The path of the history file.
pub fn history_filepath(config: &Config) -> (file: PathBuf)
    ensures
        path::path_components(file) == history_path(*config),
{
    proof {
        reveal_strlit("history.jsonl");
        assert("history.jsonl"@.len() == 13);
    }
    join_file_name(&config.codex_home, HISTORY_FILENAME)
}

/// What is known of the file `log_id` when it is looked for at `path`: what its cache holds, or
/// nothing if it has none or if its cache was read from elsewhere.
pub open spec fn cache_for(
    caches: Map<u64, HistoryCache>,
    log_id: u64,
    path: Seq<Seq<u8>>,
) -> CacheView {
    if caches.contains_key(log_id) && caches[log_id]@.path == path {
        caches[log_id]@
    } else {
        empty_cache(path)
    }
}

/// Starts to look for the record at `offset` of the history file with the identifier `log_id`.
///
/// The lookup finds the record if the identifier is that of the current history file and if the
/// file has that many records. Failures to read or to decode end it without a record.
///
/// The cache of the file moves into the lookup; when the lookup ends without a failure, it is
/// put back.
pub fn lookup(
    log_id: u64,
    offset: usize,
    config: &Config,
    caches: &mut HashMap<u64, HistoryCache>,
) -> (step: LookupStep)
    ensures
        is_step(
            step,
            go_on(
                LookupView {
                    log_id,
                    offset: offset as nat,
                    cache: cache_for(old(caches)@, log_id, history_path(*config)),
                    phase: LookupPhase::Opening,
                },
                LookupPhase::Opening,
                LookupActionView::Open { path: history_path(*config) },
            ),
        ),
        step matches LookupStep::Continue { lookup, .. } ==> is_well_formed(lookup@),
        final(caches)@ == old(caches)@.remove(log_id),
{
    let path = history_filepath(config);
    let cache = match caches.remove(&log_id) {
        Some(cache) => {
            let mut cache = cache;
            if !same_path(&cache.path, &path) {
                cache.reset(path.clone());
            }
            cache
        },
        None => HistoryCache::new(path.clone()),
    };
    LookupStep::Continue {
        lookup: Lookup { log_id, offset, cache, phase: LookupPhase::Opening },
        action: LookupAction::Open { path },
    }
}

/// Starts to look for a record of the history, as [`lookup`] does.
pub fn get_history_entry(
    log_id: u64,
    offset: usize,
    config: &Config,
    caches: &mut HashMap<u64, HistoryCache>,
) -> (step: LookupStep)
    ensures
        is_step(
            step,
            go_on(
                LookupView {
                    log_id,
                    offset: offset as nat,
                    cache: cache_for(old(caches)@, log_id, history_path(*config)),
                    phase: LookupPhase::Opening,
                },
                LookupPhase::Opening,
                LookupActionView::Open { path: history_path(*config) },
            ),
        ),
        step matches LookupStep::Continue { lookup, .. } ==> is_well_formed(lookup@),
        final(caches)@ == old(caches)@.remove(log_id),
{
    lookup(log_id, offset, config, caches)
}

/// A lookup stays with the file, the identifier and the offset that it was started for: whatever it
/// goes on with, and whatever it leaves behind, is of that file.
pub proof fn lookup_stays_with_its_file(lookup: LookupView, event: LookupEventView)
    requires
        fits(lookup.phase, event),
    ensures
        match next_step(lookup, event) {
            LookupStepView::Continue { lookup: next, action } => {
                &&& next.log_id == lookup.log_id
                &&& next.offset == lookup.offset
                &&& next.cache.path == lookup.cache.path
                &&& action matches LookupActionView::Open { path } ==> path == lookup.cache.path
            },
            LookupStepView::Done { kept, .. } => kept is Some ==> kept->0.path
                == lookup.cache.path,
        },
{
}

/// A lookup starts from what is cached of the file, if that was read from the same path, and from
/// nothing otherwise.
pub proof fn lookup_starts_from_the_cache(
    caches: Map<u64, HistoryCache>,
    log_id: u64,
    path: Seq<Seq<u8>>,
)
    ensures
        cache_for(caches, log_id, path).path == path,
        caches.contains_key(log_id) && path::path_components(caches[log_id].path) == path
            ==> cache_for(caches, log_id, path).entries == caches[log_id].entries@ && cache_for(
            caches,
            log_id,
            path,
        ).byte_offset == caches[log_id].byte_offset,
        !(caches.contains_key(log_id) && path::path_components(caches[log_id].path) == path)
            ==> cache_for(caches, log_id, path).entries.len() == 0 && cache_for(
            caches,
            log_id,
            path,
        ).byte_offset == 0,
{
}

/// The history file lies in the home directory, under its own name.
pub proof fn history_lies_in_the_home_directory(config: Config)
    ensures
        history_path(config) == path::path_components(config.codex_home).push(
            encode_utf8("history.jsonl"@),
        ),
{
}

/// A new cache holds nothing, and a cache gives the record at an offset exactly if it holds that
/// many.
pub proof fn cache_gives_what_it_holds(cache: CacheView, offset: nat, path: Seq<Seq<u8>>)
    ensures
        cached_entry(cache, offset) is Some <==> offset < cache.entries.len(),
        offset < cache.entries.len() ==> cached_entry(cache, offset)->0
            == cache.entries[offset as int],
        empty_cache(path).path == path,
        empty_cache(path).byte_offset == 0,
        empty_cache(path).entries.len() == 0,
{
}

/// A step that says what is expected says all of it.
pub proof fn step_says_all_that_is_expected(step: LookupStep, expected: LookupStepView)
    requires
        is_step(step, expected),
    ensures
        step is Continue <==> expected is Continue,
        step matches LookupStep::Continue { lookup, action } ==> lookup@ == expected->lookup
            && action@ == expected->action,
        step matches LookupStep::Done { entry, failure } ==> entry == expected->entry && (
        failure is Some <==> expected->failure is Some) && (failure is Some ==> failure->0@
            == expected->failure->0),
{
}

/// A cache that is put back is found again, as it was left, and the caches of other files stay as
/// they were; a lookup that leaves none changes nothing.
pub proof fn caches_hold_what_is_put_back(
    before: Map<u64, HistoryCache>,
    after: Map<u64, HistoryCache>,
    log_id: u64,
    expected: LookupStepView,
)
    requires
        is_put_back(before, after, log_id, expected),
    ensures
        expected is Done && expected->kept is Some ==> after.contains_key(log_id)
            && after[log_id]@ == expected->kept->0,
        !(expected is Done && expected->kept is Some) ==> after == before,
        forall|other: u64|
            other != log_id ==> (#[trigger] after.contains_key(other) <==> before.contains_key(
                other,
            )) && (before.contains_key(other) ==> after[other] == before[other]),
{
}

/// A lookup takes whatever can come of what it asks for, as long as the offsets in the file fit
/// into 64 bits.
pub proof fn lookup_takes_what_can_come(
    lookup: LookupView,
    attempts: usize,
    read_bytes: u64,
    appended: bool,
    log_id: u64,
    line: Seq<char>,
    entry: HistoryEntry,
    message: Seq<char>,
)
    ensures
        fits(LookupPhase::Opening, LookupEventView::Opened { log_id }),
        fits(LookupPhase::Opening, LookupEventView::Failed(message)),
        fits(LookupPhase::Locking { attempts }, LookupEventView::Locked),
        fits(LookupPhase::Locking { attempts }, LookupEventView::WouldBlock),
        fits(LookupPhase::Locking { attempts }, LookupEventView::Failed(message)),
        fits(LookupPhase::Waiting { attempts }, LookupEventView::Slept),
        fits(LookupPhase::Seeking, LookupEventView::Sought),
        fits(LookupPhase::Seeking, LookupEventView::Failed(message)),
        fits(LookupPhase::Reading { read_bytes, appended }, LookupEventView::Line(line)),
        fits(LookupPhase::Reading { read_bytes, appended }, LookupEventView::Failed(message)),
        fits(LookupPhase::Parsing { read_bytes, appended }, LookupEventView::Parsed(entry)),
        fits(LookupPhase::Parsing { read_bytes, appended }, LookupEventView::ParseFailed(message)),
        lookup.phase == (LookupPhase::Reading { read_bytes, appended })
            && lookup.cache.byte_offset + read_bytes + encode_utf8(line).len() <= u64::MAX
            ==> has_room_for(lookup, LookupEventView::Line(line)),
        lookup.phase !is Reading ==> has_room_for(lookup, LookupEventView::Line(line)),
        has_room_for(lookup, LookupEventView::Failed(message)),
        has_room_for(lookup, LookupEventView::Locked),
        has_room_for(lookup, LookupEventView::WouldBlock),
        has_room_for(lookup, LookupEventView::Slept),
        has_room_for(lookup, LookupEventView::Sought),
        has_room_for(lookup, LookupEventView::Opened { log_id }),
        has_room_for(lookup, LookupEventView::Parsed(entry)),
        has_room_for(lookup, LookupEventView::ParseFailed(message)),
{
}

/// A lock is tried ten times, with a tenth of a second between the tries.
pub proof fn lock_is_tried_ten_times()
    ensures
        MAX_RETRIES == 10,
        RETRY_SLEEP_MS == 100,
{
}

/// The views of records, caches, failures and lookups hold all that these say.
pub proof fn views_hold_all_of_a_lookup(
    entry: HistoryEntry,
    cache: HistoryCache,
    failure: CacheAccessError,
    lookup: Lookup,
)
    ensures
        entry@.session_id == entry.session_id@,
        entry@.ts == entry.ts,
        entry@.text == entry.text@,
        cache@.path == path::path_components(cache.path),
        cache@.byte_offset == cache.byte_offset,
        cache@.entries == cache.entries@,
        match failure {
            CacheAccessError::Io(message) => failure@ == FailureView::Io(message@),
            CacheAccessError::WouldBlock(message) => failure@ == FailureView::WouldBlock(message@),
            CacheAccessError::Parse(message) => failure@ == FailureView::Parse(message@),
            CacheAccessError::LogIdMismatch => failure@ is LogIdMismatch,
        },
        lookup@.log_id == lookup.log_id,
        lookup@.offset == lookup.offset,
        lookup@.cache == lookup.cache@,
        lookup@.phase == lookup.phase,
{
}

/// The views of actions and events hold all that these say.
pub proof fn views_hold_all_of_actions_and_events(action: LookupAction, event: LookupEvent)
    ensures
        match action {
            LookupAction::Open { path } => action@ == LookupActionView::Open {
                path: path::path_components(path),
            },
            LookupAction::TryLockShared => action@ is TryLockShared,
            LookupAction::Sleep => action@ is Sleep,
            LookupAction::Seek(to) => action@ is Seek && action@->Seek_0 == to,
            LookupAction::ReadLine => action@ is ReadLine,
            LookupAction::Parse(record) => action@ == LookupActionView::Parse(record@),
        },
        match event {
            LookupEvent::Opened { log_id } => event@ == LookupEventView::Opened { log_id },
            LookupEvent::Locked => event@ is Locked,
            LookupEvent::WouldBlock => event@ is WouldBlock,
            LookupEvent::Slept => event@ is Slept,
            LookupEvent::Sought => event@ is Sought,
            LookupEvent::Line(line) => event@ == LookupEventView::Line(line@),
            LookupEvent::Parsed(entry) => event@ == LookupEventView::Parsed(entry),
            LookupEvent::ParseFailed(message) => event@ == LookupEventView::ParseFailed(message@),
            LookupEvent::Failed(message) => event@ == LookupEventView::Failed(message@),
        },
{
}

} // verus!
