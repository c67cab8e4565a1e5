//! Filling a cache from an open history file up to a number of records.
//!
//! Unlike a lookup, a load works on a file that is already open, takes in one line at a time, and
//! takes every line for a record.

use super::log;
use super::log::Decoder;
use super::{
    CacheAccessError, CacheView, FailureView, HistoryCache, HistoryEntry, LookupAction,
    LookupActionView, LookupEvent, LookupEventView,
};
use crate::text;
use crate::text::trim_line_end;
use vstd::prelude::*;
use vstd::utf8::*;

verus! {

/// What a load is waiting for.
#[derive(Debug, Clone, Copy, PartialEq, Eq, Structural)]
pub enum LoadPhase {
    /// The file to be positioned at the end of what was read.
    Seeking,
    /// The next line.
    Reading,
    /// The record in the line that was just read, which has `read` bytes.
    Parsing { read: u64 },
}

/// A load that has not ended.
#[derive(Debug)]
pub struct Load {
    pub cache: HistoryCache,
    pub needed: usize,
    pub phase: LoadPhase,
}

/// Where a load stands.
#[verifier::ext_equal]
pub struct LoadView {
    pub cache: CacheView,
    pub needed: nat,
    pub phase: LoadPhase,
}

impl View for Load {
    type V = LoadView;

    open spec fn view(&self) -> LoadView {
        LoadView { cache: self.cache@, needed: self.needed as nat, phase: self.phase }
    }
}

/// How a load goes on.
#[derive(Debug)]
pub enum LoadStep {
    /// Do `action` and come back with what came of it.
    Continue { load: Load, action: LookupAction },
    /// The load has ended; the cache holds what was taken in, also if it failed. It fails with
    /// [`CacheAccessError::Io`] or [`CacheAccessError::Parse`].
    Done { cache: HistoryCache, failure: Option<CacheAccessError> },
}

/// How a load goes on.
#[verifier::ext_equal]
pub enum LoadStepView {
    Continue { load: LoadView, action: LookupActionView },
    Done { cache: CacheView, failure: Option<FailureView> },
}

impl View for LoadStep {
    type V = LoadStepView;

    open spec fn view(&self) -> LoadStepView {
        match *self {
            LoadStep::Continue { load, action } => LoadStepView::Continue {
                load: load@,
                action: action@,
            },
            LoadStep::Done { cache, failure: Some(failure) } => LoadStepView::Done {
                cache: cache@,
                failure: Some(failure@),
            },
            LoadStep::Done { cache, failure: None } => LoadStepView::Done {
                cache: cache@,
                failure: None,
            },
        }
    }
}

/// The event can come of the action that a load in this phase has asked for, and the end of the
/// line that was read has an offset that fits into 64 bits.
pub open spec fn fits(load: LoadView, event: LookupEventView) -> bool {
    match load.phase {
        LoadPhase::Seeking => event is Sought || event is Failed,
        LoadPhase::Reading => match event {
            LookupEventView::Line(line) => load.cache.byte_offset + encode_utf8(line).len()
                <= u64::MAX,
            _ => event is Failed,
        },
        LoadPhase::Parsing { .. } => event is Parsed || event is ParseFailed,
    }
}

/// The offset at which a load goes on fits into 64 bits.
pub open spec fn is_well_formed(load: LoadView) -> bool {
    load.phase matches LoadPhase::Parsing { read } ==> load.cache.byte_offset + read <= u64::MAX
}

/// A load reads on while records are missing.
pub open spec fn read_on(cache: CacheView, needed: nat) -> LoadStepView {
    if cache.entries.len() < needed {
        LoadStepView::Continue {
            load: LoadView { cache, needed, phase: LoadPhase::Reading },
            action: LookupActionView::ReadLine,
        }
    } else {
        LoadStepView::Done { cache, failure: None }
    }
}

/// What a load does with the next event.
pub open spec fn next_step(load: LoadView, event: LookupEventView) -> LoadStepView {
    match (load.phase, event) {
        (_, LookupEventView::Failed(message)) => LoadStepView::Done {
            cache: load.cache,
            failure: Some(FailureView::Io(message)),
        },
        (_, LookupEventView::ParseFailed(message)) => LoadStepView::Done {
            cache: load.cache,
            failure: Some(FailureView::Parse(message)),
        },
        (LoadPhase::Seeking, _) => read_on(load.cache, load.needed),
        (LoadPhase::Reading, LookupEventView::Line(line)) => if line.len() == 0 {
            LoadStepView::Done { cache: load.cache, failure: None }
        } else {
            LoadStepView::Continue {
                load: LoadView {
                    phase: LoadPhase::Parsing { read: encode_utf8(line).len() as u64 },
                    ..load
                },
                action: LookupActionView::Parse(text::without_line_end(line)),
            }
        },
        (LoadPhase::Parsing { read }, LookupEventView::Parsed(entry)) => read_on(
            CacheView {
                byte_offset: load.cache.byte_offset + read as nat,
                entries: load.cache.entries.push(entry),
                ..load.cache
            },
            load.needed,
        ),
        _ => arbitrary(),
    }
}

impl Load {
    fn read_on(cache: HistoryCache, needed: usize) -> (step: LoadStep)
        ensures
            step@ == read_on(cache@, needed as nat),
            step matches LoadStep::Continue { load, .. } ==> is_well_formed(load@),
    {
        if cache.entries.len() < needed {
            LoadStep::Continue {
                load: Load { cache, needed, phase: LoadPhase::Reading },
                action: LookupAction::ReadLine,
            }
        } else {
            LoadStep::Done { cache, failure: None }
        }
    }

    /// Goes on with the load after `event`.
    pub fn next(self, event: LookupEvent) -> (step: LoadStep)
        requires
            is_well_formed(self@),
            fits(self@, event@),
        ensures
            step@ == next_step(self@, event@),
            step matches LoadStep::Continue { load, .. } ==> is_well_formed(load@),
    {
        match event {
            LookupEvent::Sought => Load::read_on(self.cache, self.needed),
            LookupEvent::Line(line) => {
                if line.as_str().is_empty() {
                    return LoadStep::Done { cache: self.cache, failure: None };
                }
                let read: u64 = line.as_str().as_bytes().len() as u64;
                let record: &str = trim_line_end(line.as_str());
                LoadStep::Continue {
                    load: Load { phase: LoadPhase::Parsing { read }, ..self },
                    action: LookupAction::Parse(record.to_owned()),
                }
            },
            LookupEvent::Parsed(entry) => match self.phase {
                LoadPhase::Parsing { read } => {
                    let mut cache = self.cache;
                    cache.byte_offset = cache.byte_offset + read;
                    cache.entries.push(entry);
                    Load::read_on(cache, self.needed)
                },
                _ => vstd::pervasive::unreached(),
            },
            LookupEvent::ParseFailed(message) => LoadStep::Done {
                cache: self.cache,
                failure: Some(CacheAccessError::Parse(message)),
            },
            LookupEvent::Failed(message) => LoadStep::Done {
                cache: self.cache,
                failure: Some(CacheAccessError::Io(message)),
            },
            _ => vstd::pervasive::unreached(),
        }
    }
}

/// How a load starts.
pub open spec fn start_of_load(cache: CacheView, needed: nat) -> LoadStepView {
    LoadStepView::Continue {
        load: LoadView { cache, needed, phase: LoadPhase::Seeking },
        action: LookupActionView::Seek(cache.byte_offset),
    }
}

/// Starts to fill `cache` from its open file until it holds `needed` records or the file ends.
pub fn load_history_entries(cache: HistoryCache, needed: usize) -> (step: LoadStep)
    ensures
        step@ == start_of_load(cache@, needed as nat),
        step matches LoadStep::Continue { load, .. } ==> is_well_formed(load@),
{
    let start: u64 = cache.byte_offset;
    LoadStep::Continue {
        load: Load { cache, needed, phase: LoadPhase::Seeking },
        action: LookupAction::Seek(start),
    }
}

/// Where a load from `file` stands after at most `fuel` further actions.
pub open spec fn run(
    file: log::HistoryFile,
    step: LoadStepView,
    next: nat,
    fuel: nat,
) -> LoadStepView
    decreases fuel,
{
    match step {
        LoadStepView::Continue { load, action } => if fuel == 0 {
            step
        } else {
            run(
                file,
                next_step(load, log::answer(file, next, action)),
                log::next_after(file, next, action),
                (fuel - 1) as nat,
            )
        },
        LoadStepView::Done { .. } => step,
    }
}

/// The records of the lines from `start` to `end`, each of which is taken for one.
pub open spec fn records_between(
    lines: Seq<Seq<char>>,
    start: nat,
    end: nat,
    decode: Decoder,
) -> Option<Seq<HistoryEntry>>
    decreases end - start,
{
    if end <= start {
        Some(Seq::empty())
    } else {
        match (
            records_between(lines, start, (end - 1) as nat, decode),
            decode(text::without_line_end(lines[end - 1])),
        ) {
            (Some(before), Some(entry)) => Some(before.push(entry)),
            _ => None,
        }
    }
}

/// The load has taken in the lines from `start` to `stop` and no others, one after the other: their
/// records are added to those of the cache, and the offset moves to their end.
pub open spec fn took_in(
    file: log::HistoryFile,
    cache: CacheView,
    start: nat,
    stop: nat,
    filled: CacheView,
) -> bool {
    &&& start <= stop <= file.lines.len()
    &&& filled.path == cache.path
    &&& filled.byte_offset == log::bytes_before(file.lines, stop)
    &&& match records_between(file.lines, start, stop, file.decode) {
        Some(records) => filled.entries == cache.entries + records,
        None => false,
    }
}

/// The load that started at the line `start` has ended at the line `stop`: because nothing was
/// missing any more, because the file ended, or because that line cannot be decoded.
pub open spec fn ended_at(
    file: log::HistoryFile,
    cache: CacheView,
    needed: nat,
    start: nat,
    stop: nat,
    end: LoadStepView,
) -> bool {
    match end {
        LoadStepView::Done { cache: filled, failure } => {
            &&& took_in(file, cache, start, stop, filled)
            &&& filled.entries.len() <= needed || stop == start
            &&& match failure {
                None => filled.entries.len() >= needed || stop == file.lines.len(),
                Some(failure) => {
                    &&& filled.entries.len() < needed
                    &&& stop < file.lines.len()
                    &&& (file.decode)(text::without_line_end(file.lines[stop as int])) is None
                    &&& failure == FailureView::Parse(
                        (file.complaint)(text::without_line_end(file.lines[stop as int])),
                    )
                },
            }
        },
        LoadStepView::Continue { .. } => false,
    }
}

proof fn lemma_read_on(
    file: log::HistoryFile,
    cache: CacheView,
    needed: nat,
    start: nat,
    filled: CacheView,
    next: nat,
) -> (ended: (nat, nat))
    requires
        log::is_log(file.lines),
        took_in(file, cache, start, next, filled),
        filled.entries.len() <= needed || next == start,
    ensures
        ended_at(
            file,
            cache,
            needed,
            start,
            ended.0,
            run(file, read_on(filled, needed), next, ended.1),
        ),
    decreases file.lines.len() - next,
{
    if filled.entries.len() >= needed {
        (next, 0)
    } else if next == file.lines.len() {
        assert(run(file, read_on(filled, needed), next, 1) == run(
            file,
            LoadStepView::Done { cache: filled, failure: None },
            next + 1,
            0,
        ));
        (next, 1)
    } else {
        let line = file.lines[next as int];
        let record = text::without_line_end(line);
        log::lemma_line_fits(file.lines, next);
        let parsing = LoadView {
            cache: filled,
            needed,
            phase: LoadPhase::Parsing { read: encode_utf8(line).len() as u64 },
        };
        let parse = LoadStepView::Continue {
            load: parsing,
            action: LookupActionView::Parse(record),
        };
        match (file.decode)(record) {
            Some(entry) => {
                let grown = CacheView {
                    byte_offset: log::bytes_before(file.lines, next + 1),
                    entries: filled.entries.push(entry),
                    ..filled
                };
                let taken = records_between(file.lines, start, next, file.decode)->0;
                assert(records_between(file.lines, start, next + 1, file.decode) == Some(
                    taken.push(entry),
                ));
                assert(cache.entries + taken.push(entry) =~= grown.entries);
                let (stop, rest) = lemma_read_on(file, cache, needed, start, grown, next + 1);
                assert(run(file, parse, next + 1, rest + 1) == run(
                    file,
                    read_on(grown, needed),
                    next + 1,
                    rest,
                ));
                assert(run(file, read_on(filled, needed), next, rest + 2) == run(
                    file,
                    parse,
                    next + 1,
                    rest + 1,
                ));
                (stop, rest + 2)
            },
            None => {
                let failed = LoadStepView::Done {
                    cache: filled,
                    failure: Some(FailureView::Parse((file.complaint)(record))),
                };
                assert(run(file, parse, next + 1, 1) == run(file, failed, next + 1, 0));
                assert(run(file, read_on(filled, needed), next, 2) == run(
                    file,
                    parse,
                    next + 1,
                    1,
                ));
                (next, 2)
            },
        }
    }
}

/// A load from the line `start` takes in lines one by one until the cache holds what is needed, the
/// file ends, or a line cannot be decoded. The cache holds exactly what was taken in, also when the
/// load failed, and then the line at which it stopped is the one that cannot be decoded.
pub proof fn load_takes_in_lines(
    file: log::HistoryFile,
    cache: CacheView,
    needed: nat,
    start: nat,
)
    requires
        log::is_log(file.lines),
        start <= file.lines.len(),
        cache.byte_offset == log::bytes_before(file.lines, start),
    ensures
        exists|stop: nat, fuel: nat|
            #[trigger] ended_at(
                file,
                cache,
                needed,
                start,
                stop,
                run(file, start_of_load(cache, needed), 0, fuel),
            ),
{
    log::lemma_line_at(file.lines, start);
    assert(cache.entries + Seq::empty() =~= cache.entries);
    let (stop, fuel) = lemma_read_on(file, cache, needed, start, cache, start);
    assert(run(file, start_of_load(cache, needed), 0, fuel + 1) == run(
        file,
        read_on(cache, needed),
        start,
        fuel,
    ));
    assert(ended_at(
        file,
        cache,
        needed,
        start,
        stop,
        run(file, start_of_load(cache, needed), 0, fuel + 1),
    ));
}

/// Lines that are taken in and are not blank keep a cache of the file one.
pub proof fn load_keeps_a_cache_of_the_file(
    file: log::HistoryFile,
    cache: CacheView,
    start: nat,
    stop: nat,
    filled: CacheView,
)
    requires
        log::holds_lines(cache, file.lines, start, file.decode),
        took_in(file, cache, start, stop, filled),
        forall|i: int| start <= i < stop ==> !log::is_blank_line(#[trigger] file.lines[i]),
    ensures
        log::holds_lines(filled, file.lines, stop, file.decode),
{
    lemma_records_continue(file, cache.entries, start, stop);
}

proof fn lemma_records_continue(
    file: log::HistoryFile,
    entries: Seq<HistoryEntry>,
    start: nat,
    stop: nat,
)
    requires
        start <= stop,
        log::records(file.lines, start, file.decode) == Some(entries),
        records_between(file.lines, start, stop, file.decode) is Some,
        forall|i: int| start <= i < stop ==> !log::is_blank_line(#[trigger] file.lines[i]),
    ensures
        log::records(file.lines, stop, file.decode) == Some(
            entries + records_between(file.lines, start, stop, file.decode)->0,
        ),
    decreases stop - start,
{
    if stop == start {
        assert(entries + Seq::empty() =~= entries);
    } else {
        let last = (stop - 1) as nat;
        lemma_records_continue(file, entries, start, last);
        let before = records_between(file.lines, start, last, file.decode)->0;
        let entry = (file.decode)(text::without_line_end(file.lines[stop - 1]))->0;
        assert(!log::is_blank_line(file.lines[stop - 1]));
        assert((entries + before).push(entry) =~= entries + before.push(entry));
    }
}

/// A load that meets a failure ends with it and keeps what it has taken in.
pub proof fn failed_load_keeps_its_cache(load: LoadView, message: Seq<char>)
    ensures
        next_step(load, LookupEventView::Failed(message)) == (LoadStepView::Done {
            cache: load.cache,
            failure: Some(FailureView::Io(message)),
        }),
        next_step(load, LookupEventView::ParseFailed(message)) == (LoadStepView::Done {
            cache: load.cache,
            failure: Some(FailureView::Parse(message)),
        }),
{
}

/// A load starts at the end of what its cache has read.
pub proof fn load_starts_where_its_cache_ends(cache: CacheView, needed: nat)
    ensures
        start_of_load(cache, needed) is Continue,
        start_of_load(cache, needed)->action == LookupActionView::Seek(cache.byte_offset),
        start_of_load(cache, needed)->load.cache == cache,
        start_of_load(cache, needed)->load.needed == needed,
{
}

/// A load takes whatever can come of what it asks for, as long as the offsets in the file fit into
/// 64 bits.
pub proof fn load_takes_what_can_come(
    load: LoadView,
    line: Seq<char>,
    entry: HistoryEntry,
    message: Seq<char>,
)
    ensures
        load.phase is Seeking ==> fits(load, LookupEventView::Sought) && fits(
            load,
            LookupEventView::Failed(message),
        ),
        load.phase is Reading ==> fits(load, LookupEventView::Failed(message)),
        load.phase is Reading && load.cache.byte_offset + encode_utf8(line).len() <= u64::MAX
            ==> fits(load, LookupEventView::Line(line)),
        load.phase is Parsing ==> fits(load, LookupEventView::Parsed(entry)) && fits(
            load,
            LookupEventView::ParseFailed(message),
        ),
{
}

/// The views of loads and of their steps hold all that these say.
pub proof fn views_hold_all_of_a_load(load: Load, step: LoadStep)
    ensures
        load@.cache == load.cache@,
        load@.needed == load.needed,
        load@.phase == load.phase,
        match step {
            LoadStep::Continue { load, action } => step@ == (LoadStepView::Continue {
                load: load@,
                action: action@,
            }),
            LoadStep::Done { cache, failure: Some(failure) } => step@ == (LoadStepView::Done {
                cache: cache@,
                failure: Some(failure@),
            }),
            LoadStep::Done { cache, failure: None } => step@ == (LoadStepView::Done {
                cache: cache@,
                failure: None,
            }),
        },
{
}

} // verus!
