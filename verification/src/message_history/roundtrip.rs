//! What appends do to the history file, and that lookups find what they wrote.

use super::append;
use super::append::{
    AppendActionView, AppendErrorView, AppendEventView, AppendPhase, AppendStepView, AppendView,
};
use super::framing;
use super::log;
use super::log::{Decoder, HistoryFile};
use super::metadata;
use super::{CacheView, EntryView, HistoryEntry, MAX_RETRIES};
use crate::config::{Config, HistoryPersistence};
use crate::message_history;
use vstd::prelude::*;
use vstd::utf8::*;

verus! {

/// What the history file holds and what its mode is.
#[verifier::ext_equal]
pub struct Disk {
    pub content: Seq<char>,
    pub mode: u32,
}

/// What surrounds an append: the time, how records are encoded, and how often the lock is tried
/// in vain before it can be had.
pub struct Surroundings {
    pub now: u64,
    pub encode: spec_fn(EntryView) -> Seq<char>,
    pub blocked: nat,
}

/// What comes of an action when no operation fails and the lock was tried `tries` times before.
pub open spec fn answer(
    around: Surroundings,
    disk: Disk,
    tries: nat,
    action: AppendActionView,
) -> AppendEventView {
    match action {
        AppendActionView::CreateDirectory { .. } => AppendEventView::DirectoryCreated,
        AppendActionView::TellTime => AppendEventView::Time(around.now),
        AppendActionView::Serialise(entry) => AppendEventView::Serialised((around.encode)(entry)),
        AppendActionView::Open { .. } => AppendEventView::Opened,
        AppendActionView::TellMode => AppendEventView::Mode(disk.mode),
        AppendActionView::SetMode(_) => AppendEventView::ModeSet,
        AppendActionView::TryLock => if tries < around.blocked {
            AppendEventView::WouldBlock
        } else {
            AppendEventView::Locked
        },
        AppendActionView::Sleep => AppendEventView::Slept,
        AppendActionView::Write(_) => AppendEventView::Written,
    }
}

/// What an action leaves on the disk.
pub open spec fn effect(disk: Disk, action: AppendActionView) -> Disk {
    match action {
        AppendActionView::SetMode(mode) => Disk { mode, ..disk },
        AppendActionView::Write(line) => Disk { content: disk.content + line, ..disk },
        _ => disk,
    }
}

/// Where an append stands, what is on the disk and how often the lock was tried, after at most
/// `fuel` further actions.
pub open spec fn run(
    around: Surroundings,
    step: AppendStepView,
    disk: Disk,
    tries: nat,
    fuel: nat,
) -> (AppendStepView, Disk, nat)
    decreases fuel,
{
    match step {
        AppendStepView::Continue { append, action } => if fuel == 0 {
            (step, disk, tries)
        } else {
            run(
                around,
                append::next_step(append, answer(around, disk, tries, action)),
                effect(disk, action),
                tries + if action is TryLock {
                    1nat
                } else {
                    0
                },
                (fuel - 1) as nat,
            )
        },
        AppendStepView::Done(_) => (step, disk, tries),
    }
}

proof fn lemma_lock(around: Surroundings, locking: AppendView, disk: Disk, tries: nat) -> (fuel:
    nat)
    requires
        locking.phase == (AppendPhase::Locking { attempts: tries as usize }),
        tries < MAX_RETRIES,
        tries <= around.blocked,
    ensures
        run(
            around,
            AppendStepView::Continue { append: locking, action: AppendActionView::TryLock },
            disk,
            tries,
            fuel,
        ) == if around.blocked < MAX_RETRIES {
            (
                AppendStepView::Done(Ok(())),
                (Disk { content: disk.content + locking.line, ..disk }),
                around.blocked + 1,
            )
        } else {
            (
                append::fail(
                    AppendErrorView::WouldBlock(
                        "could not acquire exclusive lock on history file after multiple attempts"@,
                    ),
                ),
                disk,
                MAX_RETRIES as nat,
            )
        },
    decreases MAX_RETRIES - tries,
{
    reveal_with_fuel(run, 3);
    if tries == around.blocked {
        2
    } else if tries + 1 < MAX_RETRIES {
        let again = AppendView {
            phase: AppendPhase::Locking { attempts: (tries + 1) as usize },
            ..locking
        };
        let rest = lemma_lock(around, again, disk, tries + 1);
        rest + 2
    } else {
        2
    }
}

/// The record that an append makes.
pub open spec fn record_of(around: Surroundings, text: Seq<char>, session_id: Seq<char>) -> Seq<
    char,
> {
    (around.encode)(EntryView { session_id, ts: around.now, text })
}

proof fn lemma_append(
    around: Surroundings,
    text: Seq<char>,
    session_id: Seq<char>,
    config: Config,
    disk: Disk,
) -> (fuel: nat)
    requires
        config.history.persistence is SaveAll,
    ensures
        ({
            let (end, after, tries) = run(
                around,
                append::start_of_append(text, session_id, config),
                disk,
                0,
                fuel,
            );
            &&& after.mode & 0o777 == 0o600
            &&& if around.blocked < MAX_RETRIES {
                &&& end == AppendStepView::Done(Ok(()))
                &&& after.content == disk.content + record_of(around, text, session_id).push('\n')
                &&& tries == around.blocked + 1
            } else {
                &&& end == append::fail(
                    AppendErrorView::WouldBlock(
                        "could not acquire exclusive lock on history file after multiple attempts"@,
                    ),
                )
                &&& after.content == disk.content
                &&& tries == MAX_RETRIES
            }
        }),
{
    reveal_with_fuel(run, 7);
    assert(0o600u32 & 0o777 == 0o600) by (bit_vector);
    let locking = AppendView {
        path: message_history::history_path(config),
        session_id,
        text,
        line: record_of(around, text, session_id).push('\n'),
        phase: AppendPhase::Locking { attempts: 0 },
    };
    if disk.mode & 0o777 == 0o600 {
        let rest = lemma_lock(around, locking, disk, 0);
        rest + 5
    } else {
        let rest = lemma_lock(around, locking, Disk { mode: 0o600, ..disk }, 0);
        rest + 6
    }
}

/// An append that gets its lock in time adds exactly its record and a line feed to what the file
/// holds, and leaves the file to its owner only.
pub proof fn append_writes_one_line(
    around: Surroundings,
    text: Seq<char>,
    session_id: Seq<char>,
    config: Config,
    disk: Disk,
)
    requires
        config.history.persistence is SaveAll,
        around.blocked < MAX_RETRIES,
    ensures
        exists|fuel: nat|
            {
                let (end, after, _) = #[trigger] run(
                    around,
                    append::start_of_append(text, session_id, config),
                    disk,
                    0,
                    fuel,
                );
                &&& end == AppendStepView::Done(Ok(()))
                &&& after.content == disk.content + record_of(around, text, session_id).push('\n')
                &&& after.mode & 0o777 == 0o600
            },
{
    let fuel = lemma_append(around, text, session_id, config, disk);
    assert(run(around, append::start_of_append(text, session_id, config), disk, 0, fuel).0
        == AppendStepView::Done(Ok(())));
}

/// An append that cannot get its lock gives up after [`MAX_RETRIES`] tries and writes nothing.
pub proof fn append_gives_up_in_the_end(
    around: Surroundings,
    text: Seq<char>,
    session_id: Seq<char>,
    config: Config,
    disk: Disk,
)
    requires
        config.history.persistence is SaveAll,
        around.blocked >= MAX_RETRIES,
    ensures
        exists|fuel: nat|
            {
                let (end, after, tries) = #[trigger] run(
                    around,
                    append::start_of_append(text, session_id, config),
                    disk,
                    0,
                    fuel,
                );
                &&& end matches AppendStepView::Done(Err(AppendErrorView::WouldBlock(_)))
                &&& after.content == disk.content
                &&& tries == MAX_RETRIES
            },
{
    let fuel = lemma_append(around, text, session_id, config, disk);
    assert(run(around, append::start_of_append(text, session_id, config), disk, 0, fuel).2
        == MAX_RETRIES);
}

/// An append asks for a write only when it has just got its lock, and then for its whole line.
pub proof fn append_writes_under_its_lock(append: AppendView, event: AppendEventView)
    requires
        append::fits(append.phase, event),
        append::next_step(append, event) matches AppendStepView::Continue { action, .. }
            && action is Write,
    ensures
        append.phase is Locking,
        event is Locked,
        append::next_step(append, event)->action == AppendActionView::Write(append.line),
{
}

/// An append ends with its write, so that it never asks for a second one.
pub proof fn append_writes_once(append: AppendView, event: AppendEventView)
    requires
        append.phase is Writing,
        append::fits(append.phase, event),
    ensures
        append::next_step(append, event) is Done,
{
}

/// When the history is not to be saved, an append succeeds and leaves the disk as it is.
pub proof fn unsaved_history_is_not_touched(
    around: Surroundings,
    text: Seq<char>,
    session_id: Seq<char>,
    config: Config,
    disk: Disk,
    fuel: nat,
)
    requires
        config.history.persistence is SaveNone,
    ensures
        run(around, append::start_of_append(text, session_id, config), disk, 0, fuel) == (
            AppendStepView::Done(Ok(())),
            disk,
            0nat,
        ),
{
}

/// An append that has ended after some actions has ended in the same way after any that suffice.
proof fn lemma_end_is_one(
    around: Surroundings,
    step: AppendStepView,
    disk: Disk,
    tries: nat,
    fuel: nat,
    enough: nat,
)
    requires
        run(around, step, disk, tries, fuel).0 is Done,
        run(around, step, disk, tries, enough).0 is Done,
    ensures
        run(around, step, disk, tries, fuel) == run(around, step, disk, tries, enough),
    decreases fuel,
{
    match step {
        AppendStepView::Continue { append, action } => {
            lemma_end_is_one(
                around,
                append::next_step(append, answer(around, disk, tries, action)),
                effect(disk, action),
                tries + if action is TryLock {
                    1nat
                } else {
                    0
                },
                (fuel - 1) as nat,
                (enough - 1) as nat,
            );
        },
        AppendStepView::Done(_) => {},
    }
}

/// The append with these arguments succeeds and leaves `after` on the disk.
pub open spec fn is_append(
    around: Surroundings,
    text: Seq<char>,
    session_id: Seq<char>,
    config: Config,
    before: Disk,
    after: Disk,
) -> bool {
    exists|fuel: nat|
        ({
            let end = #[trigger] run(
                around,
                append::start_of_append(text, session_id, config),
                before,
                0,
                fuel,
            );
            end.0 == AppendStepView::Done(Ok(())) && end.1 == after
        })
}

/// A successful append adds its record and a line feed to the file, or nothing if the history is
/// not to be saved.
pub proof fn successful_append_adds_its_line(
    around: Surroundings,
    text: Seq<char>,
    session_id: Seq<char>,
    config: Config,
    before: Disk,
    after: Disk,
)
    requires
        is_append(around, text, session_id, config, before, after),
    ensures
        after.content == match config.history.persistence {
            HistoryPersistence::SaveAll => before.content + record_of(
                around,
                text,
                session_id,
            ).push('\n'),
            HistoryPersistence::SaveNone => before.content,
        },
{
    let start = append::start_of_append(text, session_id, config);
    let fuel = choose|fuel: nat|
        ({
            let end = #[trigger] run(around, start, before, 0, fuel);
            end.0 == AppendStepView::Done(Ok(())) && end.1 == after
        });
    match config.history.persistence {
        HistoryPersistence::SaveAll => {
            let enough = lemma_append(around, text, session_id, config, before);
            lemma_end_is_one(around, start, before, 0, fuel, enough);
        },
        HistoryPersistence::SaveNone => {},
    }
}

/// Decoding undoes encoding, and records are laid out on one line, as JSON objects are.
pub open spec fn is_codec(encode: spec_fn(EntryView) -> Seq<char>, decode: Decoder) -> bool {
    forall|entry: EntryView|
        {
            let record = #[trigger] encode(entry);
            &&& framing::is_one_line(record)
            &&& decode(record) is Some
            &&& decode(record)->0@ == entry
        }
}

/// Whatever text is appended, a lookup at the offset that was the number of records before finds
/// it, with the session and the time of the append, also through a cache that was filled before;
/// and the records before it stay what they were.
pub proof fn appended_text_is_found(
    around: Surroundings,
    text: Seq<char>,
    session_id: Seq<char>,
    config: Config,
    before: Disk,
    after: Disk,
    log_id: u64,
    entries: Seq<HistoryEntry>,
    cache: CacheView,
    decode: Decoder,
    complaint: spec_fn(Seq<char>) -> Seq<char>,
)
    requires
        config.history.persistence is SaveAll,
        is_append(around, text, session_id, config, before, after),
        is_codec(around.encode, decode),
        framing::is_whole(before.content),
        log::records(
            framing::lines_of(before.content),
            framing::lines_of(before.content).len(),
            decode,
        ) == Some(entries),
        log::is_cache_of(cache, framing::lines_of(before.content), decode),
        encode_utf8(after.content).len() <= u64::MAX,
    ensures
        framing::is_whole(after.content),
        exists|fuel: nat|
            (#[trigger] log::run(
                file_with(log_id, after.content, decode, complaint),
                log::start_of_lookup(log_id, entries.len(), cache),
                0,
                fuel,
            )) matches message_history::LookupStepView::Done {
                entry: Some(found),
                failure: None,
                ..
            } && found@ == (EntryView { session_id, ts: around.now, text }),
        forall|offset: nat|
            offset < entries.len() ==> #[trigger] log::record_at(
                framing::lines_of(after.content),
                offset,
                decode,
            ) == log::record_at(framing::lines_of(before.content), offset, decode),
{
    let record = record_of(around, text, session_id);
    let entry = decode(record)->0;
    let lines = framing::lines_of(before.content);
    successful_append_adds_its_line(around, text, session_id, config, before, after);
    framing::record_becomes_a_line(before.content, record);
    framing::added_record_comes_last(before.content, entries, record, entry, decode);
    lookup_finds_what_was_appended(
        log_id,
        before.content,
        entries,
        record,
        entry,
        cache,
        decode,
        complaint,
    );
    let file = file_with(log_id, after.content, decode, complaint);
    let start = log::start_of_lookup(log_id, entries.len(), cache);
    let fuel = choose|fuel: nat|
        (#[trigger] log::run(file, start, 0, fuel)) matches message_history::LookupStepView::Done {
            entry: Some(found),
            failure: None,
            ..
        } && found == entry;
    assert(log::run(file, start, 0, fuel) is Done);
    assert forall|offset: nat| offset < entries.len() implies #[trigger] log::record_at(
        framing::lines_of(after.content),
        offset,
        decode,
    ) == log::record_at(lines, offset, decode) by {
        log::lemma_record_after(lines, lines.len(), entries, offset, decode);
    }
}

/// A successful append adds one to the number of records that the history file is said to have, or
/// nothing if the history is not to be saved, however the file is read to count them.
pub proof fn append_counts_once(
    around: Surroundings,
    text: Seq<char>,
    session_id: Seq<char>,
    config: Config,
    before: Disk,
    after: Disk,
    log_id: u64,
    chunks: Seq<Vec<u8>>,
)
    requires
        is_append(around, text, session_id, config, before, after),
        framing::is_one_line(record_of(around, text, session_id)),
        chunks.len() > 0,
        chunks.last()@.len() == 0,
        forall|i: int| 0 <= i < chunks.len() - 1 ==> (#[trigger] chunks[i])@.len() > 0,
        metadata::joined(chunks, chunks.len()) == encode_utf8(after.content),
        metadata::line_feeds(encode_utf8(after.content)) <= usize::MAX,
    ensures
        metadata::after_chunks(
            message_history::history_path(config),
            log_id,
            chunks,
            chunks.len(),
        ) == (metadata::CountStepView::Done {
            log_id,
            count: metadata::line_feeds(encode_utf8(before.content)) + if config.history.persistence
                is SaveAll {
                1nat
            } else {
                0
            },
        }),
{
    successful_append_adds_its_line(around, text, session_id, config, before, after);
    framing::added_record_counts_once(before.content, record_of(around, text, session_id));
    metadata::count_does_not_depend_on_chunks(
        message_history::history_path(config),
        log_id,
        chunks,
    );
}

/// A history file with this content.
pub open spec fn file_with(
    log_id: u64,
    content: Seq<char>,
    decode: Decoder,
    complaint: spec_fn(Seq<char>) -> Seq<char>,
) -> HistoryFile {
    HistoryFile { log_id, lines: framing::lines_of(content), decode, complaint }
}

/// What an append wrote is found by a lookup at the offset that was the number of records before,
/// also through a cache that was filled before.
///
/// The record must be laid out on one line, as JSON objects are, and decode to `entry`.
pub proof fn lookup_finds_what_was_appended(
    log_id: u64,
    content: Seq<char>,
    entries: Seq<HistoryEntry>,
    record: Seq<char>,
    entry: HistoryEntry,
    cache: CacheView,
    decode: Decoder,
    complaint: spec_fn(Seq<char>) -> Seq<char>,
)
    requires
        framing::is_whole(content),
        log::records(
            framing::lines_of(content),
            framing::lines_of(content).len(),
            decode,
        ) == Some(entries),
        framing::is_one_line(record),
        decode(record) == Some(entry),
        log::is_cache_of(cache, framing::lines_of(content), decode),
        encode_utf8(content + record.push('\n')).len() <= u64::MAX,
    ensures
        exists|fuel: nat|
            (#[trigger] log::run(
                file_with(log_id, content + record.push('\n'), decode, complaint),
                log::start_of_lookup(log_id, entries.len(), cache),
                0,
                fuel,
            )) matches message_history::LookupStepView::Done {
                entry: Some(found),
                failure: None,
                ..
            } && found == entry,
{
    let file = file_with(log_id, content + record.push('\n'), decode, complaint);
    let before = framing::lines_of(content);
    framing::record_becomes_a_line(content, record);
    assert(file.lines =~= before + seq![record.push('\n')]);
    framing::files_are_logs(content + record.push('\n'));
    log::cache_survives_appending(cache, before, seq![record.push('\n')], decode);
    framing::added_record_comes_last(content, entries, record, entry, decode);
    log::lookup_finds_the_record(file, entries.len(), cache);
    let start = log::start_of_lookup(log_id, entries.len(), cache);
    let fuel = choose|fuel: nat|
        log::ended_well(
            file,
            entries.len(),
            cache.path,
            #[trigger] log::run(file, start, 0, fuel),
        );
    assert(log::run(file, start, 0, fuel) is Done);
}

} // verus!
