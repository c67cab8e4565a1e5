//! What a history file means, and what lookups make of it.
//!
//! A history file is modelled as its lines, each with its end, in the order in which they are
//! read; the record that a line holds is given by a function from text to entry.

use super::metadata;
use crate::message_history;
use crate::message_history::{
    CacheView, FailureView, HistoryCache, HistoryEntry, LookupActionView, LookupEventView,
    LookupPhase, LookupStepView, LookupView, MAX_RETRIES,
};
use crate::text;
use vstd::prelude::*;
use vstd::utf8::*;

verus! {

/// How the text of a record is decoded, if it can be.
pub type Decoder = spec_fn(Seq<char>) -> Option<HistoryEntry>;

/// The line holds nothing but its end.
pub open spec fn is_blank_line(line: Seq<char>) -> bool {
    text::without_line_end(line).len() == 0
}

/// The records of the first `n` lines, or `None` if one of them cannot be decoded.
pub open spec fn records(lines: Seq<Seq<char>>, n: nat, decode: Decoder) -> Option<
    Seq<HistoryEntry>,
>
    decreases n,
{
    if n == 0 {
        Some(Seq::empty())
    } else {
        let line = lines[n - 1];
        match records(lines, (n - 1) as nat, decode) {
            Some(before) => if is_blank_line(line) {
                Some(before)
            } else {
                match decode(text::without_line_end(line)) {
                    Some(entry) => Some(before.push(entry)),
                    None => None,
                }
            },
            None => None,
        }
    }
}

/// The record at `offset` of the history, if every line up to it can be decoded: the entry of the
/// line that holds it, where lines that hold nothing but their end do not count.
pub open spec fn record_at(lines: Seq<Seq<char>>, offset: nat, decode: Decoder) -> Option<
    HistoryEntry,
> {
    record_from(lines, 0, offset, decode)
}

/// The record at `offset` of the lines from `start` on.
pub open spec fn record_from(
    lines: Seq<Seq<char>>,
    start: nat,
    offset: nat,
    decode: Decoder,
) -> Option<HistoryEntry>
    decreases lines.len() - start,
{
    if start >= lines.len() {
        None
    } else {
        let line = lines[start as int];
        if is_blank_line(line) {
            record_from(lines, start + 1, offset, decode)
        } else {
            match decode(text::without_line_end(line)) {
                Some(entry) => if offset == 0 {
                    Some(entry)
                } else {
                    record_from(lines, start + 1, (offset - 1) as nat, decode)
                },
                None => None,
            }
        }
    }
}

/// The number of bytes in the first `n` lines.
pub open spec fn bytes_before(lines: Seq<Seq<char>>, n: nat) -> nat
    decreases n,
{
    if n == 0 {
        0
    } else {
        bytes_before(lines, (n - 1) as nat) + encode_utf8(lines[n - 1]).len()
    }
}

/// The lines can be those of a file: none is empty, and their offsets fit into 64 bits.
pub open spec fn is_log(lines: Seq<Seq<char>>) -> bool {
    &&& forall|i: int| 0 <= i < lines.len() ==> (#[trigger] lines[i]).len() > 0
    &&& bytes_before(lines, lines.len()) <= u64::MAX
}

/// The cache holds what is in the first `n` lines, and no more.
pub open spec fn holds_lines(
    cache: CacheView,
    lines: Seq<Seq<char>>,
    n: nat,
    decode: Decoder,
) -> bool {
    &&& n <= lines.len()
    &&& cache.byte_offset == bytes_before(lines, n)
    &&& records(lines, n, decode) == Some(cache.entries)
}

/// The cache holds what is in the file up to the end of one of its lines.
pub open spec fn is_cache_of(
    cache: CacheView,
    lines: Seq<Seq<char>>,
    decode: Decoder,
) -> bool {
    exists|n: nat| holds_lines(cache, lines, n, decode)
}

/// A history file with a way to decode it, and what is said of records that cannot be decoded.
pub struct HistoryFile {
    pub log_id: u64,
    pub lines: Seq<Seq<char>>,
    pub decode: Decoder,
    pub complaint: spec_fn(Seq<char>) -> Seq<char>,
}

/// The line that starts at the byte offset `start`.
pub open spec fn line_at(lines: Seq<Seq<char>>, start: nat) -> nat {
    choose|n: nat| n <= lines.len() && bytes_before(lines, n) == start
}

/// What comes of an action on a file that can be read and that nobody else has locked, when
/// `next` is the line that is read next.
pub open spec fn answer(file: HistoryFile, next: nat, action: LookupActionView) -> LookupEventView {
    match action {
        LookupActionView::Open { .. } => LookupEventView::Opened { log_id: file.log_id },
        LookupActionView::TryLockShared => LookupEventView::Locked,
        LookupActionView::Sleep => LookupEventView::Slept,
        LookupActionView::Seek(_) => LookupEventView::Sought,
        LookupActionView::ReadLine => LookupEventView::Line(
            if next < file.lines.len() {
                file.lines[next as int]
            } else {
                Seq::empty()
            },
        ),
        LookupActionView::Parse(record) => match (file.decode)(record) {
            Some(entry) => LookupEventView::Parsed(entry),
            None => LookupEventView::ParseFailed((file.complaint)(record)),
        },
    }
}

/// The line that is read next after an action.
pub open spec fn next_after(file: HistoryFile, next: nat, action: LookupActionView) -> nat {
    match action {
        LookupActionView::Open { .. } => 0,
        LookupActionView::Seek(start) => line_at(file.lines, start),
        LookupActionView::ReadLine => next + 1,
        _ => next,
    }
}

/// Where a lookup in `file` stands after at most `fuel` further actions.
pub open spec fn run(
    file: HistoryFile,
    step: LookupStepView,
    next: nat,
    fuel: nat,
) -> LookupStepView
    decreases fuel,
{
    match step {
        LookupStepView::Continue { lookup, action } => if fuel == 0 {
            step
        } else {
            run(
                file,
                message_history::next_step(lookup, answer(file, next, action)),
                next_after(file, next, action),
                (fuel - 1) as nat,
            )
        },
        LookupStepView::Done { .. } => step,
    }
}

/// How a lookup starts when `cache` is known of the file.
pub open spec fn start_of_lookup(log_id: u64, offset: nat, cache: CacheView) -> LookupStepView {
    message_history::go_on(
        LookupView { log_id, offset, cache, phase: LookupPhase::Opening },
        LookupPhase::Opening,
        LookupActionView::Open { path: cache.path },
    )
}

/// The lookup has ended with what the file holds at `offset`. Unless it failed, its cache is one
/// of the file again.
pub open spec fn ended_well(
    file: HistoryFile,
    offset: nat,
    path: Seq<Seq<u8>>,
    end: LookupStepView,
) -> bool {
    match end {
        LookupStepView::Done { entry, failure, kept } => {
            &&& entry == record_at(file.lines, offset, file.decode)
            &&& failure is None <==> kept is Some
            &&& failure is Some ==> entry is None && failure->0 is Parse
            &&& kept matches Some(cache) ==> cache.path == path && is_cache_of(
                cache,
                file.lines,
                file.decode,
            )
        },
        LookupStepView::Continue { .. } => false,
    }
}

proof fn lemma_bytes_before_grows(lines: Seq<Seq<char>>, m: nat, n: nat)
    requires
        forall|i: int| 0 <= i < lines.len() ==> (#[trigger] lines[i]).len() > 0,
        m < n <= lines.len(),
    ensures
        bytes_before(lines, m) < bytes_before(lines, n),
    decreases n,
{
    lemma_encoding_is_not_empty(lines[n - 1]);
    if m + 1 < n {
        lemma_bytes_before_grows(lines, m, (n - 1) as nat);
    }
}

/// The end of a line has an offset that fits into 64 bits.
pub(crate) proof fn lemma_line_fits(lines: Seq<Seq<char>>, n: nat)
    requires
        is_log(lines),
        n < lines.len(),
    ensures
        bytes_before(lines, n + 1) == bytes_before(lines, n) + encode_utf8(lines[n as int]).len(),
        bytes_before(lines, n + 1) <= u64::MAX,
{
    if n + 1 < lines.len() {
        lemma_bytes_before_grows(lines, n + 1, lines.len());
    }
}

proof fn lemma_encoding_is_not_empty(line: Seq<char>)
    requires
        line.len() > 0,
    ensures
        encode_utf8(line).len() > 0,
{
}

pub(crate) proof fn lemma_line_at(lines: Seq<Seq<char>>, n: nat)
    requires
        is_log(lines),
        n <= lines.len(),
    ensures
        line_at(lines, bytes_before(lines, n)) == n,
{
    let found = line_at(lines, bytes_before(lines, n));
    assert(n <= lines.len() && bytes_before(lines, n) == bytes_before(lines, n));
    if found < n {
        lemma_bytes_before_grows(lines, found, n);
    } else if n < found {
        lemma_bytes_before_grows(lines, n, found);
    }
}

/// The records of the first lines decide the record at an offset, or shift it to the rest.
pub(crate) proof fn lemma_record_after(
    lines: Seq<Seq<char>>,
    n: nat,
    entries: Seq<HistoryEntry>,
    offset: nat,
    decode: Decoder,
)
    requires
        n <= lines.len(),
        records(lines, n, decode) == Some(entries),
    ensures
        record_at(lines, offset, decode) == if offset < entries.len() {
            Some(entries[offset as int])
        } else {
            record_from(lines, n, (offset - entries.len()) as nat, decode)
        },
    decreases n,
{
    if n > 0 {
        let before = records(lines, (n - 1) as nat, decode)->0;
        lemma_record_after(lines, (n - 1) as nat, before, offset, decode);
    }
}

proof fn lemma_run_step(
    file: HistoryFile,
    lookup: LookupView,
    action: LookupActionView,
    next: nat,
    fuel: nat,
)
    ensures
        run(file, LookupStepView::Continue { lookup, action }, next, fuel + 1) == run(
            file,
            message_history::next_step(lookup, answer(file, next, action)),
            next_after(file, next, action),
            fuel,
        ),
{
}

/// The lookup found the record by reading exactly up to it.
spec fn read_up_to(offset: nat, start: nat, end: LookupStepView) -> bool {
    match end {
        LookupStepView::Done { entry: Some(_), kept: Some(cache), .. } => {
            &&& cache.entries.len() == offset + 1
            &&& cache.byte_offset > start
        },
        LookupStepView::Done { entry: Some(_), .. } => false,
        _ => true,
    }
}

/// The line `i` is one on which a lookup of `offset` fails: it holds something that cannot be
/// decoded, and what comes before it does not reach the offset.
pub open spec fn fails_at(
    file: HistoryFile,
    offset: nat,
    i: int,
    failure: FailureView,
) -> bool {
    let record = text::without_line_end(file.lines[i]);
    &&& 0 <= i < file.lines.len()
    &&& record.len() > 0
    &&& (file.decode)(record) is None
    &&& records(file.lines, i as nat, file.decode) is Some
    &&& records(file.lines, i as nat, file.decode)->0.len() <= offset
    &&& failure == FailureView::Parse((file.complaint)(record))
}

/// A lookup that read on from the line `start` has left off rightly: with a cache that goes on from
/// there, and that holds all of the file if the record was not found; or on a line on which it had
/// to fail.
spec fn left_off_rightly(
    file: HistoryFile,
    offset: nat,
    start: nat,
    end: LookupStepView,
) -> bool {
    match end {
        LookupStepView::Done { entry, failure, kept } => {
            &&& kept is Some ==> exists|n: nat|
                start <= n && #[trigger] holds_lines(kept->0, file.lines, n, file.decode)
            &&& kept is Some && entry is None ==> holds_lines(
                kept->0,
                file.lines,
                file.lines.len(),
                file.decode,
            )
            &&& failure is Some ==> exists|i: int| fails_at(file, offset, i, failure->0)
        },
        LookupStepView::Continue { .. } => false,
    }
}

/// A pass that is about to open the file comes to read the line at which the cache ends.
proof fn lemma_open(file: HistoryFile, lookup: LookupView, next: nat, known: nat) -> (fuel: nat)
    requires
        is_log(file.lines),
        file.log_id == lookup.log_id,
        holds_lines(lookup.cache, file.lines, known, file.decode),
        lookup.cache.entries.len() <= lookup.offset,
    ensures
        ({
            let end = run(
                file,
                start_of_lookup(lookup.log_id, lookup.offset, lookup.cache),
                next,
                fuel,
            );
            &&& ended_well(file, lookup.offset, lookup.cache.path, end)
            &&& read_up_to(lookup.offset, lookup.cache.byte_offset, end)
            &&& left_off_rightly(file, lookup.offset, known, end)
        }),
    decreases file.lines.len() - known, 1nat, 1nat,
{
    let opening = LookupView { phase: LookupPhase::Opening, ..lookup };
    let locking = LookupView { phase: LookupPhase::Locking { attempts: 0 }, ..lookup };
    let seeking = LookupView { phase: LookupPhase::Seeking, ..lookup };
    let reading = LookupView {
        phase: LookupPhase::Reading { read_bytes: 0, appended: false },
        ..lookup
    };
    let start = lookup.cache.byte_offset;
    lemma_line_at(file.lines, known);
    let fuel = lemma_read(file, reading, known);
    lemma_run_step(file, seeking, LookupActionView::Seek(start), 0, fuel);
    lemma_run_step(file, locking, LookupActionView::TryLockShared, 0, fuel + 1);
    lemma_run_step(
        file,
        opening,
        LookupActionView::Open { path: lookup.cache.path },
        next,
        fuel + 2,
    );
    fuel + 3
}

/// A pass that is about to read the line `next` leads to the record that is sought.
proof fn lemma_read(file: HistoryFile, lookup: LookupView, next: nat) -> (fuel: nat)
    requires
        is_log(file.lines),
        file.log_id == lookup.log_id,
        next <= file.lines.len(),
        lookup.phase is Reading,
        records(file.lines, next, file.decode) == Some(lookup.cache.entries),
        lookup.cache.byte_offset + lookup.phase->Reading_read_bytes == bytes_before(
            file.lines,
            next,
        ),
        lookup.cache.entries.len() <= lookup.offset,
    ensures
        ({
            let end = run(
                file,
                LookupStepView::Continue { lookup, action: LookupActionView::ReadLine },
                next,
                fuel,
            );
            &&& ended_well(file, lookup.offset, lookup.cache.path, end)
            &&& read_up_to(lookup.offset, bytes_before(file.lines, next), end)
            &&& left_off_rightly(file, lookup.offset, next, end)
        }),
    decreases
            file.lines.len() - next,
            if lookup.phase->Reading_appended {
                2nat
            } else {
                0nat
            },
            0nat,
{
    let lines = file.lines;
    let read_bytes = lookup.phase->Reading_read_bytes;
    let appended = lookup.phase->Reading_appended;
    lemma_record_after(lines, next, lookup.cache.entries, lookup.offset, file.decode);
    if next == lines.len() {
        let read = LookupView {
            cache: CacheView {
                byte_offset: bytes_before(lines, next),
                ..lookup.cache
            },
            ..lookup
        };
        assert(holds_lines(read.cache, lines, next, file.decode));
        if appended {
            let rest = lemma_open(file, read, next + 1, next);
            lemma_run_step(file, lookup, LookupActionView::ReadLine, next, rest);
            rest + 1
        } else {
            lemma_run_step(file, lookup, LookupActionView::ReadLine, next, 0);
            1
        }
    } else {
        let line = lines[next as int];
        let record = text::without_line_end(line);
        lemma_line_fits(lines, next);
        lemma_bytes_before_grows(lines, next, next + 1);
        let read = (read_bytes + encode_utf8(line).len()) as u64;
        if is_blank_line(line) {
            let after = LookupView {
                phase: LookupPhase::Reading { read_bytes: read, appended },
                ..lookup
            };
            let rest = lemma_read(file, after, next + 1);
            lemma_run_step(file, lookup, LookupActionView::ReadLine, next, rest);
            rest + 1
        } else {
            let parsing = LookupView {
                phase: LookupPhase::Parsing { read_bytes: read, appended },
                ..lookup
            };
            match (file.decode)(record) {
                Some(entry) => {
                    let grown = LookupView {
                        cache: CacheView {
                            entries: lookup.cache.entries.push(entry),
                            ..lookup.cache
                        },
                        ..parsing
                    };
                    if grown.cache.entries.len() > lookup.offset {
                        let kept = CacheView {
                            byte_offset: bytes_before(lines, next + 1),
                            ..grown.cache
                        };
                        assert(holds_lines(kept, lines, next + 1, file.decode));
                        lemma_run_step(file, parsing, LookupActionView::Parse(record), next + 1, 0);
                        lemma_run_step(file, lookup, LookupActionView::ReadLine, next, 1);
                        2
                    } else {
                        let after = LookupView {
                            phase: LookupPhase::Reading { read_bytes: read, appended: true },
                            ..grown
                        };
                        let rest = lemma_read(file, after, next + 1);
                        lemma_run_step(
                            file,
                            parsing,
                            LookupActionView::Parse(record),
                            next + 1,
                            rest,
                        );
                        lemma_run_step(file, lookup, LookupActionView::ReadLine, next, rest + 1);
                        rest + 2
                    }
                },
                None => {
                    assert(fails_at(
                        file,
                        lookup.offset,
                        next as int,
                        FailureView::Parse((file.complaint)(record)),
                    ));
                    lemma_run_step(file, parsing, LookupActionView::Parse(record), next + 1, 0);
                    lemma_run_step(file, lookup, LookupActionView::ReadLine, next, 1);
                    2
                },
            }
        }
    }
}

/// A lookup in the current history file ends with the record that the file holds at the offset,
/// or without one if the file does not reach that far or if a line before cannot be decoded,
/// whatever part of the file the cache held. The cache that it leaves is again one of the file.
pub proof fn lookup_finds_the_record(file: HistoryFile, offset: nat, cache: CacheView)
    requires
        is_log(file.lines),
        is_cache_of(cache, file.lines, file.decode),
    ensures
        exists|fuel: nat|
            ended_well(
                file,
                offset,
                cache.path,
                #[trigger] run(file, start_of_lookup(file.log_id, offset, cache), 0, fuel),
            ),
{
    let known = choose|n: nat| holds_lines(cache, file.lines, n, file.decode);
    let lookup = LookupView { log_id: file.log_id, offset, cache, phase: LookupPhase::Opening };
    let first = start_of_lookup(file.log_id, offset, cache);
    if offset < cache.entries.len() {
        lemma_record_after(file.lines, known, cache.entries, offset, file.decode);
        lemma_run_step(file, lookup, LookupActionView::Open { path: cache.path }, 0, 0);
        assert(ended_well(file, offset, cache.path, run(file, first, 0, 1)));
    } else {
        let fuel = lemma_open(file, lookup, 0, known);
        assert(ended_well(file, offset, cache.path, run(file, first, 0, fuel)));
    }
}

/// What the caches hold of `file`, if it was read from `path`, is in the file.
pub open spec fn caches_are_valid(
    caches: Map<u64, HistoryCache>,
    file: HistoryFile,
    path: Seq<Seq<u8>>,
) -> bool {
    caches.contains_key(file.log_id) && caches[file.log_id]@.path == path ==> is_cache_of(
        caches[file.log_id]@,
        file.lines,
        file.decode,
    )
}

/// Valid caches stay valid: a lookup starts from what the file holds, and when it has taken its
/// cache out, run to its end and put the cache back, the caches are valid again.
pub proof fn lookups_keep_the_caches_valid(
    before: Map<u64, HistoryCache>,
    after: Map<u64, HistoryCache>,
    file: HistoryFile,
    path: Seq<Seq<u8>>,
    offset: nat,
    fuel: nat,
)
    requires
        is_log(file.lines),
        caches_are_valid(before, file, path),
        ({
            let cache = message_history::cache_for(before, file.log_id, path);
            let end = run(file, start_of_lookup(file.log_id, offset, cache), 0, fuel);
            &&& end is Done
            &&& message_history::is_put_back(
                before.remove(file.log_id),
                after,
                file.log_id,
                end,
            )
        }),
    ensures
        is_cache_of(
            message_history::cache_for(before, file.log_id, path),
            file.lines,
            file.decode,
        ),
        caches_are_valid(after, file, path),
{
    let cache = message_history::cache_for(before, file.log_id, path);
    let start = start_of_lookup(file.log_id, offset, cache);
    empty_cache_fits_every_file(path, file.lines, file.decode);
    lookup_finds_the_record(file, offset, cache);
    let enough = choose|fuel: nat|
        ended_well(file, offset, cache.path, #[trigger] run(file, start, 0, fuel));
    lemma_end_is_one(file, start, 0, fuel, enough);
}

/// A lookup that has ended after some actions has ended in the same way after any that suffice.
proof fn lemma_end_is_one(
    file: HistoryFile,
    step: LookupStepView,
    next: nat,
    fuel: nat,
    enough: nat,
)
    requires
        run(file, step, next, fuel) is Done,
        run(file, step, next, enough) is Done,
    ensures
        run(file, step, next, fuel) == run(file, step, next, enough),
    decreases fuel,
{
    match step {
        LookupStepView::Continue { lookup, action } => {
            lemma_end_is_one(
                file,
                message_history::next_step(lookup, answer(file, next, action)),
                next_after(file, next, action),
                (fuel - 1) as nat,
                (enough - 1) as nat,
            );
        },
        LookupStepView::Done { .. } => {},
    }
}

/// A lookup that finds a record beyond the cache reads no further than that record: the cache
/// then ends with it, and has moved on in the file.
pub proof fn lookup_extends_the_cache_step_by_step(
    file: HistoryFile,
    offset: nat,
    cache: CacheView,
)
    requires
        is_log(file.lines),
        is_cache_of(cache, file.lines, file.decode),
        cache.entries.len() <= offset,
        record_at(file.lines, offset, file.decode) is Some,
    ensures
        exists|fuel: nat|
            (#[trigger] run(
                file,
                start_of_lookup(file.log_id, offset, cache),
                0,
                fuel,
            )) matches LookupStepView::Done { kept: Some(grown), .. } && grown.entries.len()
                == offset + 1 && grown.byte_offset > cache.byte_offset,
{
    let known = choose|n: nat| holds_lines(cache, file.lines, n, file.decode);
    let lookup = LookupView { log_id: file.log_id, offset, cache, phase: LookupPhase::Opening };
    let fuel = lemma_open(file, lookup, 0, known);
    assert(run(file, start_of_lookup(file.log_id, offset, cache), 0, fuel) is Done);
}

/// A cache that has read nothing is one of any file.
pub proof fn empty_cache_fits_every_file(
    path: Seq<Seq<u8>>,
    lines: Seq<Seq<char>>,
    decode: Decoder,
)
    ensures
        is_cache_of(message_history::empty_cache(path), lines, decode),
{
    assert(holds_lines(message_history::empty_cache(path), lines, 0, decode));
}

/// A cache of a file stays one when lines are appended to the file.
pub proof fn cache_survives_appending(
    cache: CacheView,
    lines: Seq<Seq<char>>,
    appended: Seq<Seq<char>>,
    decode: Decoder,
)
    requires
        is_cache_of(cache, lines, decode),
    ensures
        is_cache_of(cache, lines + appended, decode),
{
    let known = choose|n: nat| holds_lines(cache, lines, n, decode);
    lemma_prefix(lines, appended, known, decode);
    assert(holds_lines(cache, lines + appended, known, decode));
}

pub(crate) proof fn lemma_prefix(
    lines: Seq<Seq<char>>,
    appended: Seq<Seq<char>>,
    n: nat,
    decode: Decoder,
)
    requires
        n <= lines.len(),
    ensures
        records(lines + appended, n, decode) == records(lines, n, decode),
        bytes_before(lines + appended, n) == bytes_before(lines, n),
    decreases n,
{
    if n > 0 {
        lemma_prefix(lines, appended, (n - 1) as nat, decode);
    }
}

/// Records keep their offsets when lines are appended to the file.
pub proof fn records_keep_their_offsets(
    lines: Seq<Seq<char>>,
    appended: Seq<Seq<char>>,
    offset: nat,
    decode: Decoder,
)
    requires
        record_at(lines, offset, decode) is Some,
    ensures
        record_at(lines + appended, offset, decode) == record_at(lines, offset, decode),
{
    lemma_record_kept(lines, appended, 0, offset, decode);
}

proof fn lemma_record_kept(
    lines: Seq<Seq<char>>,
    appended: Seq<Seq<char>>,
    start: nat,
    offset: nat,
    decode: Decoder,
)
    requires
        record_from(lines, start, offset, decode) is Some,
    ensures
        record_from(lines + appended, start, offset, decode) == record_from(
            lines,
            start,
            offset,
            decode,
        ),
    decreases lines.len() - start,
{
    let line = lines[start as int];
    assert((lines + appended)[start as int] == line);
    if is_blank_line(line) {
        lemma_record_kept(lines, appended, start + 1, offset, decode);
    } else if offset > 0 {
        lemma_record_kept(lines, appended, start + 1, (offset - 1) as nat, decode);
    }
}

/// Where a lookup stands after the file was opened and its lock was tried `tries` times in vain.
pub open spec fn after_failed_tries(
    file: HistoryFile,
    step: LookupStepView,
    tries: nat,
) -> LookupStepView
    decreases tries,
{
    if tries == 0 {
        match step {
            LookupStepView::Continue { lookup, .. } => message_history::next_step(
                lookup,
                LookupEventView::Opened { log_id: file.log_id },
            ),
            done => done,
        }
    } else {
        match after_failed_tries(file, step, (tries - 1) as nat) {
            LookupStepView::Continue { lookup, .. } => match message_history::next_step(
                lookup,
                LookupEventView::WouldBlock,
            ) {
                LookupStepView::Continue { lookup, .. } => message_history::next_step(
                    lookup,
                    LookupEventView::Slept,
                ),
                done => done,
            },
            done => done,
        }
    }
}

/// A lookup that has to read and cannot get its lock goes on trying, and fails after
/// [`MAX_RETRIES`] tries.
pub proof fn lookup_gives_up_in_the_end(
    file: HistoryFile,
    offset: nat,
    cache: CacheView,
    tries: nat,
)
    requires
        cache.entries.len() <= offset,
        tries <= MAX_RETRIES,
    ensures
        after_failed_tries(file, start_of_lookup(file.log_id, offset, cache), tries) == if tries
            < MAX_RETRIES {
            LookupStepView::Continue {
                lookup: LookupView {
                    log_id: file.log_id,
                    offset,
                    cache,
                    phase: LookupPhase::Locking { attempts: tries as usize },
                },
                action: LookupActionView::TryLockShared,
            }
        } else {
            message_history::fail(
                FailureView::WouldBlock(message_history::shared_lock_message()),
            )
        },
    decreases tries,
{
    if tries > 0 {
        lookup_gives_up_in_the_end(file, offset, cache, (tries - 1) as nat);
    }
}

/// A lookup reads only under its lock, and takes the lock only on the file that was asked for: it
/// asks for the lock after that file was opened, or to try again, goes to where it reads when it
/// has just got the lock, and reads on from there.
pub proof fn lookup_reads_under_its_lock(lookup: LookupView, event: LookupEventView)
    requires
        message_history::fits(lookup.phase, event),
    ensures
        message_history::next_step(lookup, event) matches LookupStepView::Continue {
            action: LookupActionView::TryLockShared,
            ..
        } ==> event == (LookupEventView::Opened { log_id: lookup.log_id }) || lookup.phase
            is Waiting,
        message_history::next_step(lookup, event) matches LookupStepView::Continue {
            action: LookupActionView::Seek(start),
            ..
        } ==> event is Locked && start == lookup.cache.byte_offset,
        message_history::next_step(lookup, event) matches LookupStepView::Continue {
            action: LookupActionView::ReadLine,
            ..
        } ==> lookup.phase is Seeking || lookup.phase is Reading || lookup.phase is Parsing,
{
}

/// A lookup that meets an error finds nothing and gives its cache up.
pub proof fn failed_lookup_drops_its_cache(lookup: LookupView, event: LookupEventView)
    requires
        event is Failed || event is ParseFailed,
        message_history::fits(lookup.phase, event),
    ensures
        message_history::next_step(lookup, event) matches LookupStepView::Done {
            entry: None,
            failure: Some(_),
            kept: None,
        },
{
}

/// A lookup for another file than the current one finds nothing and gives its cache up.
pub proof fn lookup_in_another_file_finds_nothing(
    file: HistoryFile,
    log_id: u64,
    offset: nat,
    cache: CacheView,
)
    requires
        log_id != file.log_id,
    ensures
        run(file, start_of_lookup(log_id, offset, cache), 0, 1) == (LookupStepView::Done {
            entry: None,
            failure: Some(FailureView::LogIdMismatch),
            kept: None,
        }),
{
    let lookup = LookupView { log_id, offset, cache, phase: LookupPhase::Opening };
    lemma_run_step(file, lookup, LookupActionView::Open { path: cache.path }, 0, 0);
}

/// The lookup has ended exactly as it should. Its cache, unless it failed, goes on from the one
/// that it started with: unchanged if that held the record, with the record as its last one if it
/// was found, and with all of the file if it was not. It failed only on a line that cannot be
/// decoded.
pub open spec fn ended_exactly(
    file: HistoryFile,
    offset: nat,
    cache: CacheView,
    end: LookupStepView,
) -> bool {
    &&& ended_well(file, offset, cache.path, end)
    &&& match end {
        LookupStepView::Done { entry, failure, kept } => {
            &&& kept is Some ==> cache.entries.is_prefix_of(kept->0.entries) && cache.byte_offset
                <= kept->0.byte_offset
            &&& offset < cache.entries.len() ==> kept == Some(cache)
            &&& offset >= cache.entries.len() && entry is Some ==> kept is Some
                && kept->0.entries.len() == offset + 1 && kept->0.entries.last() == entry->0
            &&& entry is None && failure is None ==> holds_lines(
                kept->0,
                file.lines,
                file.lines.len(),
                file.decode,
            )
            &&& failure is Some ==> exists|i: int| fails_at(file, offset, i, failure->0)
        },
        LookupStepView::Continue { .. } => false,
    }
}

proof fn lemma_records_extend(lines: Seq<Seq<char>>, m: nat, n: nat, decode: Decoder)
    requires
        m <= n,
        records(lines, n, decode) is Some,
    ensures
        records(lines, m, decode) is Some,
        records(lines, m, decode)->0.is_prefix_of(records(lines, n, decode)->0),
    decreases n,
{
    if m < n {
        lemma_records_extend(lines, m, (n - 1) as nat, decode);
        let short = records(lines, m, decode)->0;
        let all = records(lines, n, decode)->0;
        assert(short =~= all.take(short.len() as int));
    } else {
        let all = records(lines, n, decode)->0;
        assert(all =~= all.take(all.len() as int));
    }
}

/// A lookup in the current history file ends exactly as it should.
pub proof fn lookup_ends_exactly(file: HistoryFile, offset: nat, cache: CacheView)
    requires
        is_log(file.lines),
        is_cache_of(cache, file.lines, file.decode),
    ensures
        exists|fuel: nat|
            ended_exactly(
                file,
                offset,
                cache,
                #[trigger] run(file, start_of_lookup(file.log_id, offset, cache), 0, fuel),
            ),
{
    let known = choose|n: nat| holds_lines(cache, file.lines, n, file.decode);
    let lookup = LookupView { log_id: file.log_id, offset, cache, phase: LookupPhase::Opening };
    let first = start_of_lookup(file.log_id, offset, cache);
    if offset < cache.entries.len() {
        lemma_record_after(file.lines, known, cache.entries, offset, file.decode);
        lemma_run_step(file, lookup, LookupActionView::Open { path: cache.path }, 0, 0);
        assert(cache.entries =~= cache.entries.take(cache.entries.len() as int));
        assert(ended_exactly(file, offset, cache, run(file, first, 0, 1)));
    } else {
        let fuel = lemma_open(file, lookup, 0, known);
        let end = run(file, first, 0, fuel);
        if end->kept is Some {
            let kept = end->kept->0;
            let n = choose|n: nat|
                known <= n && #[trigger] holds_lines(kept, file.lines, n, file.decode);
            lemma_records_extend(file.lines, known, n, file.decode);
            if known < n {
                lemma_bytes_before_grows(file.lines, known, n);
            }
            lemma_record_after(file.lines, n, kept.entries, offset, file.decode);
        }
        assert(ended_exactly(file, offset, cache, end));
    }
}

/// Where a lookup in `file` stands after at most `fuel` further actions, when others hold the lock
/// now and then: in the pass `pass`, the lock is refused `refusals(pass)` times. The lock was tried
/// `tries` times in this pass.
pub open spec fn busy_run(
    file: HistoryFile,
    refusals: spec_fn(nat) -> nat,
    step: LookupStepView,
    next: nat,
    pass: nat,
    tries: nat,
    fuel: nat,
) -> LookupStepView
    decreases fuel,
{
    match step {
        LookupStepView::Continue { lookup, action } => if fuel == 0 {
            step
        } else {
            let event = if action is TryLockShared && tries < refusals(pass) {
                LookupEventView::WouldBlock
            } else {
                answer(file, next, action)
            };
            busy_run(
                file,
                refusals,
                message_history::next_step(lookup, event),
                next_after(file, next, action),
                if action is Open {
                    pass + 1
                } else {
                    pass
                },
                if action is Open {
                    0
                } else if action is TryLockShared {
                    tries + 1
                } else {
                    tries
                },
                (fuel - 1) as nat,
            )
        },
        LookupStepView::Done { .. } => step,
    }
}

/// The lookup asks for what belongs to its phase, and has not been refused in this pass.
spec fn is_undisturbed(step: LookupStepView, tries: nat) -> bool {
    match step {
        LookupStepView::Continue { lookup, action } => match lookup.phase {
            LookupPhase::Opening => action is Open,
            LookupPhase::Locking { attempts } => action is TryLockShared && attempts == 0 && tries
                == 0,
            LookupPhase::Waiting { .. } => false,
            LookupPhase::Seeking => action is Seek,
            LookupPhase::Reading { .. } => action is ReadLine,
            LookupPhase::Parsing { .. } => action is Parse,
        },
        LookupStepView::Done { .. } => true,
    }
}

/// A lock that is had in the end leads to where one leads that is had at once.
proof fn lemma_lock_is_had(
    file: HistoryFile,
    refusals: spec_fn(nat) -> nat,
    lookup: LookupView,
    next: nat,
    pass: nat,
    tries: nat,
    rest: nat,
) -> (had: (nat, nat))
    requires
        refusals(pass) < 10,
        tries <= refusals(pass),
        lookup.phase == (LookupPhase::Locking { attempts: tries as usize }),
    ensures
        busy_run(
            file,
            refusals,
            LookupStepView::Continue { lookup, action: LookupActionView::TryLockShared },
            next,
            pass,
            tries,
            had.0 + rest,
        ) == busy_run(
            file,
            refusals,
            message_history::next_step(
                LookupView { phase: LookupPhase::Locking { attempts: 0 }, ..lookup },
                LookupEventView::Locked,
            ),
            next,
            pass,
            had.1,
            rest,
        ),
    decreases refusals(pass) - tries,
{
    if tries == refusals(pass) {
        (1, tries + 1)
    } else {
        let again = LookupView {
            phase: LookupPhase::Locking { attempts: (tries + 1) as usize },
            ..lookup
        };
        let waiting = LookupView {
            phase: LookupPhase::Waiting { attempts: (tries + 1) as usize },
            ..lookup
        };
        let (more, last) = lemma_lock_is_had(
            file,
            refusals,
            again,
            next,
            pass,
            tries + 1,
            rest,
        );
        assert(busy_run(
            file,
            refusals,
            LookupStepView::Continue { lookup: waiting, action: LookupActionView::Sleep },
            next,
            pass,
            tries + 1,
            more + rest + 1,
        ) == busy_run(
            file,
            refusals,
            LookupStepView::Continue { lookup: again, action: LookupActionView::TryLockShared },
            next,
            pass,
            tries + 1,
            more + rest,
        ));
        assert(busy_run(
            file,
            refusals,
            LookupStepView::Continue { lookup, action: LookupActionView::TryLockShared },
            next,
            pass,
            tries,
            more + rest + 2,
        ) == busy_run(
            file,
            refusals,
            LookupStepView::Continue { lookup: waiting, action: LookupActionView::Sleep },
            next,
            pass,
            tries + 1,
            more + rest + 1,
        ));
        (more + 2, last)
    }
}

/// Refusals delay a lookup, but do not change how it ends.
proof fn lemma_refusals_only_delay(
    file: HistoryFile,
    refusals: spec_fn(nat) -> nat,
    step: LookupStepView,
    next: nat,
    pass: nat,
    tries: nat,
    fuel: nat,
) -> (enough: nat)
    requires
        forall|pass: nat| #[trigger] refusals(pass) < 10,
        is_undisturbed(step, tries),
        run(file, step, next, fuel) is Done,
    ensures
        busy_run(file, refusals, step, next, pass, tries, enough) == run(file, step, next, fuel),
    decreases fuel,
{
    match step {
        LookupStepView::Done { .. } => 0,
        LookupStepView::Continue { lookup, action } => {
            let after = message_history::next_step(lookup, answer(file, next, action));
            let left = (fuel - 1) as nat;
            if action is TryLockShared {
                assert(lookup.phase == (LookupPhase::Locking { attempts: 0 }));
                let locked = lemma_lock_is_had(file, refusals, lookup, next, pass, 0, 0);
                let rest = lemma_refusals_only_delay(
                    file,
                    refusals,
                    after,
                    next,
                    pass,
                    locked.1,
                    left,
                );
                let had = lemma_lock_is_had(file, refusals, lookup, next, pass, 0, rest);
                lemma_tries_do_not_matter(
                    file,
                    refusals,
                    after,
                    next,
                    pass,
                    locked.1,
                    had.1,
                    rest,
                );
                had.0 + rest
            } else {
                let rest = lemma_refusals_only_delay(
                    file,
                    refusals,
                    after,
                    next_after(file, next, action),
                    if action is Open {
                        pass + 1
                    } else {
                        pass
                    },
                    if action is Open {
                        0
                    } else {
                        tries
                    },
                    left,
                );
                rest + 1
            }
        },
    }
}

/// Once a pass has its lock, it does not matter how often it was tried.
proof fn lemma_tries_do_not_matter(
    file: HistoryFile,
    refusals: spec_fn(nat) -> nat,
    step: LookupStepView,
    next: nat,
    pass: nat,
    tries: nat,
    others: nat,
    fuel: nat,
)
    requires
        is_undisturbed(step, tries),
        step matches LookupStepView::Continue { action, .. } ==> action !is TryLockShared,
    ensures
        busy_run(file, refusals, step, next, pass, tries, fuel) == busy_run(
            file,
            refusals,
            step,
            next,
            pass,
            others,
            fuel,
        ),
    decreases fuel,
{
    match step {
        LookupStepView::Continue { lookup, action } => if fuel > 0 && action !is Open {
            lemma_tries_do_not_matter(
                file,
                refusals,
                message_history::next_step(lookup, answer(file, next, action)),
                next_after(file, next, action),
                pass,
                tries,
                others,
                (fuel - 1) as nat,
            );
        },
        LookupStepView::Done { .. } => {},
    }
}

/// A lookup in the current history file ends exactly as it should also if others hold the lock now
/// and then, as long as it gets the lock within ten tries in each pass.
pub proof fn lookup_ends_exactly_under_contention(
    file: HistoryFile,
    offset: nat,
    cache: CacheView,
    refusals: spec_fn(nat) -> nat,
)
    requires
        is_log(file.lines),
        is_cache_of(cache, file.lines, file.decode),
        forall|pass: nat| #[trigger] refusals(pass) < 10,
    ensures
        exists|fuel: nat|
            ended_exactly(
                file,
                offset,
                cache,
                #[trigger] busy_run(
                    file,
                    refusals,
                    start_of_lookup(file.log_id, offset, cache),
                    0,
                    0,
                    0,
                    fuel,
                ),
            ),
{
    let start = start_of_lookup(file.log_id, offset, cache);
    lookup_ends_exactly(file, offset, cache);
    let fuel = choose|fuel: nat|
        ended_exactly(file, offset, cache, #[trigger] run(file, start, 0, fuel));
    let enough = lemma_refusals_only_delay(file, refusals, start, 0, 0, 0, fuel);
    assert(ended_exactly(
        file,
        offset,
        cache,
        busy_run(file, refusals, start, 0, 0, 0, enough),
    ));
}

/// The identifier that a count of the file ends with leads a lookup to the records of that file.
pub proof fn counted_identifier_leads_to_the_records(
    file: HistoryFile,
    path: Seq<Seq<u8>>,
    chunks: Seq<Vec<u8>>,
    told: u64,
    count: nat,
    offset: nat,
    cache: CacheView,
)
    requires
        is_log(file.lines),
        is_cache_of(cache, file.lines, file.decode),
        metadata::after_events(
            path,
            metadata::events_of(file.log_id, chunks),
            chunks.len() + 2,
        ) == (metadata::CountStepView::Done { log_id: told, count }),
    ensures
        exists|fuel: nat|
            ended_exactly(
                file,
                offset,
                cache,
                #[trigger] run(file, start_of_lookup(told, offset, cache), 0, fuel),
            ),
{
    let events = metadata::events_of(file.log_id, chunks);
    assert(events[0] == metadata::CountEvent::Identified { log_id: file.log_id });
    metadata::count_ends_with_the_identifier_it_was_told(path, events, chunks.len() + 2);
    lookup_ends_exactly(file, offset, cache);
}

/// The failure of a lookup tells what was met, in the words in which it was told.
pub proof fn failed_lookup_tells_what_was_met(lookup: LookupView, message: Seq<char>)
    ensures
        message_history::next_step(lookup, LookupEventView::ParseFailed(message))
            == (LookupStepView::Done {
            entry: None,
            failure: Some(FailureView::Parse(message)),
            kept: None,
        }) || lookup.phase !is Parsing,
        message_history::next_step(lookup, LookupEventView::Failed(message))
            == (LookupStepView::Done {
            entry: None,
            failure: Some(FailureView::Io(message)),
            kept: None,
        }) || lookup.phase is Waiting,
{
}

/// A lookup that gives up says so, in these words, after ten tries.
pub proof fn given_up_lookup_says_so(file: HistoryFile, offset: nat, cache: CacheView)
    requires
        cache.entries.len() <= offset,
    ensures
        after_failed_tries(file, start_of_lookup(file.log_id, offset, cache), 10)
            == (LookupStepView::Done {
            entry: None,
            failure: Some(
                FailureView::WouldBlock(
                    "could not acquire shared lock on history file after multiple attempts"@,
                ),
            ),
            kept: None,
        }),
{
    lookup_gives_up_in_the_end(file, offset, cache, 10);
}

/// A lookup starts by opening the file that its cache is of.
pub proof fn lookup_starts_by_opening_its_file(log_id: u64, offset: nat, cache: CacheView)
    ensures
        start_of_lookup(log_id, offset, cache) == (LookupStepView::Continue {
            lookup: LookupView { log_id, offset, cache, phase: LookupPhase::Opening },
            action: LookupActionView::Open { path: cache.path },
        }),
        message_history::go_on(
            LookupView { log_id, offset, cache, phase: LookupPhase::Opening },
            LookupPhase::Opening,
            LookupActionView::Open { path: cache.path },
        ) == start_of_lookup(log_id, offset, cache),
{
}

/// After a refused try a lookup pauses, and has one try less.
pub proof fn refused_lookup_pauses(lookup: LookupView, attempts: usize)
    requires
        lookup.phase == (LookupPhase::Locking { attempts }),
        attempts < 10,
    ensures
        message_history::next_step(lookup, LookupEventView::WouldBlock)
            == (LookupStepView::Continue {
            lookup: LookupView {
                phase: LookupPhase::Waiting { attempts: (attempts + 1) as usize },
                ..lookup
            },
            action: LookupActionView::Sleep,
        }),
{
}

/// At the end of the file, a lookup that still misses its record opens the file once more if it has
/// found others in this pass, and ends without the record if it has not.
pub proof fn lookup_goes_on_while_there_are_new_records(
    lookup: LookupView,
    read_bytes: u64,
    appended: bool,
)
    requires
        lookup.phase == (LookupPhase::Reading { read_bytes, appended }),
        lookup.cache.entries.len() <= lookup.offset,
    ensures
        ({
            let cache = CacheView {
                byte_offset: lookup.cache.byte_offset + read_bytes as nat,
                ..lookup.cache
            };
            message_history::next_step(lookup, LookupEventView::Line(Seq::empty())) == if appended {
                start_of_lookup(lookup.log_id, lookup.offset, cache)
            } else {
                LookupStepView::Done { entry: None, failure: None, kept: Some(cache) }
            }
        }),
{
}

} // verus!
