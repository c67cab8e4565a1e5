//! Asking for the identifier of the history file and for the number of its records.

use super::history_filepath;
use crate::config::Config;
use crate::message_history;
use crate::path;
use std::path::PathBuf;
use vstd::prelude::*;

verus! {

/// The byte that ends a record.
pub const LINE_FEED: u8 = 10;

/// The number of line feeds in `bytes`.
pub open spec fn line_feeds(bytes: Seq<u8>) -> nat
    decreases bytes.len(),
{
    if bytes.len() == 0 {
        0
    } else {
        line_feeds(bytes.drop_last()) + if bytes.last() == LINE_FEED {
            1nat
        } else {
            0
        }
    }
}

proof fn lemma_line_feeds_bound(bytes: Seq<u8>)
    ensures
        line_feeds(bytes) <= bytes.len(),
    decreases bytes.len(),
{
    if bytes.len() > 0 {
        lemma_line_feeds_bound(bytes.drop_last());
    }
}

/// Counts the line feeds in `bytes`.
pub fn count_line_feeds(bytes: &[u8]) -> (count: usize)
    ensures
        count == line_feeds(bytes@),
{
    let mut count: usize = 0;
    let mut i: usize = 0;
    assert(bytes@.subrange(0, 0) =~= Seq::empty());
    while i < bytes.len()
        invariant
            i <= bytes@.len(),
            count == line_feeds(bytes@.subrange(0, i as int)),
        decreases bytes@.len() - i,
    {
        proof {
            lemma_line_feeds_bound(bytes@.subrange(0, i as int));
            assert(bytes@.subrange(0, i + 1).drop_last() =~= bytes@.subrange(0, i as int));
        }
        if bytes[i] == LINE_FEED {
            count += 1;
        }
        i += 1;
    }
    assert(bytes@.subrange(0, i as int) =~= bytes@);
    count
}

/// What a count is waiting for.
#[derive(Debug, Clone, Copy, PartialEq, Eq, Structural)]
pub enum CountPhase {
    /// The identifier of the file.
    Identifying,
    /// The file to be opened.
    Opening { log_id: u64 },
    /// The next bytes of the file.
    Reading { log_id: u64, count: usize },
}

/// A count that has not ended.
#[derive(Debug)]
pub struct Count {
    pub path: PathBuf,
    pub phase: CountPhase,
}

/// What is to be done next for a count.
#[derive(Debug)]
pub enum CountAction {
    /// Tell the identifier of the file.
    Identify { path: PathBuf },
    /// Open the file for reading.
    Open { path: PathBuf },
    /// Read the next bytes; nothing is left when there are none.
    Read,
}

/// What an action asks for.
#[verifier::ext_equal]
pub enum CountActionView {
    Identify { path: Seq<Seq<u8>> },
    Open { path: Seq<Seq<u8>> },
    Read,
}

impl View for CountAction {
    type V = CountActionView;

    open spec fn view(&self) -> CountActionView {
        match *self {
            CountAction::Identify { path } => CountActionView::Identify {
                path: path::path_components(path),
            },
            CountAction::Open { path } => CountActionView::Open {
                path: path::path_components(path),
            },
            CountAction::Read => CountActionView::Read,
        }
    }
}

/// What came of an action.
#[derive(Debug)]
pub enum CountEvent {
    Identified { log_id: u64 },
    Opened,
    /// The bytes that were read.
    Bytes(Vec<u8>),
    /// The action failed.
    Failed,
}

/// How a count goes on.
#[derive(Debug)]
pub enum CountStep {
    /// Do `action` and come back with what came of it.
    Continue { counting: Count, action: CountAction },
    /// The count has ended.
    Done { log_id: u64, count: usize },
}

/// How a count goes on.
#[verifier::ext_equal]
pub enum CountStepView {
    Continue { path: Seq<Seq<u8>>, phase: CountPhase, action: CountActionView },
    Done { log_id: u64, count: nat },
}

impl View for CountStep {
    type V = CountStepView;

    open spec fn view(&self) -> CountStepView {
        match *self {
            CountStep::Continue { counting, action } => CountStepView::Continue {
                path: path::path_components(counting.path),
                phase: counting.phase,
                action: action@,
            },
            CountStep::Done { log_id, count } => CountStepView::Done {
                log_id,
                count: count as nat,
            },
        }
    }
}

/// The event can come of the action that a count in this phase has asked for, and the count that
/// it leads to fits into a machine word.
pub open spec fn fits(phase: CountPhase, event: CountEvent) -> bool {
    match phase {
        CountPhase::Identifying => event is Identified || event is Failed,
        CountPhase::Opening { .. } => event is Opened || event is Failed,
        CountPhase::Reading { count, .. } => match event {
            CountEvent::Bytes(bytes) => count + line_feeds(bytes@) <= usize::MAX,
            _ => event is Failed,
        },
    }
}

/// What a count does with the next event. A file that cannot be identified has the identifier
/// zero; a file that cannot be read to its end counts as empty.
pub open spec fn next_step(
    path: Seq<Seq<u8>>,
    phase: CountPhase,
    event: CountEvent,
) -> CountStepView {
    match (phase, event) {
        (CountPhase::Identifying, CountEvent::Identified { log_id }) => CountStepView::Continue {
            path,
            phase: CountPhase::Opening { log_id },
            action: CountActionView::Open { path },
        },
        (CountPhase::Identifying, _) => CountStepView::Done { log_id: 0, count: 0 },
        (CountPhase::Opening { log_id }, CountEvent::Opened) => CountStepView::Continue {
            path,
            phase: CountPhase::Reading { log_id, count: 0 },
            action: CountActionView::Read,
        },
        (CountPhase::Opening { log_id }, _) => CountStepView::Done { log_id, count: 0 },
        (CountPhase::Reading { log_id, count }, CountEvent::Bytes(bytes)) => if bytes@.len() == 0 {
            CountStepView::Done { log_id, count: count as nat }
        } else {
            CountStepView::Continue {
                path,
                phase: CountPhase::Reading {
                    log_id,
                    count: (count + line_feeds(bytes@)) as usize,
                },
                action: CountActionView::Read,
            }
        },
        (CountPhase::Reading { log_id, .. }, _) => CountStepView::Done { log_id, count: 0 },
    }
}

impl Count {
    /// Goes on with the count after `event`.
    pub fn next(self, event: CountEvent) -> (step: CountStep)
        requires
            fits(self.phase, event),
        ensures
            step@ == next_step(path::path_components(self.path), self.phase, event),
    {
        match self.phase {
            CountPhase::Identifying => match event {
                CountEvent::Identified { log_id } => {
                    let path = self.path.clone();
                    CountStep::Continue {
                        counting: Count { path: self.path, phase: CountPhase::Opening { log_id } },
                        action: CountAction::Open { path },
                    }
                },
                _ => CountStep::Done { log_id: 0, count: 0 },
            },
            CountPhase::Opening { log_id } => match event {
                CountEvent::Opened => CountStep::Continue {
                    counting: Count {
                        path: self.path,
                        phase: CountPhase::Reading { log_id, count: 0 },
                    },
                    action: CountAction::Read,
                },
                _ => CountStep::Done { log_id, count: 0 },
            },
            CountPhase::Reading { log_id, count } => match event {
                CountEvent::Bytes(bytes) => if bytes.len() == 0 {
                    CountStep::Done { log_id, count }
                } else {
                    let more: usize = count_line_feeds(bytes.as_slice());
                    CountStep::Continue {
                        counting: Count {
                            path: self.path,
                            phase: CountPhase::Reading { log_id, count: count + more },
                        },
                        action: CountAction::Read,
                    }
                },
                _ => CountStep::Done { log_id, count: 0 },
            },
        }
    }
}

/// Starts to ask for the identifier of the history file and for the number of its records, which
/// is the number of its line feeds.
pub fn history_metadata(config: &Config) -> (step: CountStep)
    ensures
        step@ == (CountStepView::Continue {
            path: message_history::history_path(*config),
            phase: CountPhase::Identifying,
            action: CountActionView::Identify { path: message_history::history_path(*config) },
        }),
{
    let path = history_filepath(config);
    CountStep::Continue {
        counting: Count { path: path.clone(), phase: CountPhase::Identifying },
        action: CountAction::Identify { path },
    }
}

/// The bytes of the first `n` chunks.
pub open spec fn joined(chunks: Seq<Vec<u8>>, n: nat) -> Seq<u8>
    decreases n,
{
    if n == 0 {
        Seq::empty()
    } else {
        joined(chunks, (n - 1) as nat) + chunks[n - 1]@
    }
}

/// Where a count stands after it has been handed the first `n` chunks of the open file.
pub open spec fn after_chunks(
    path: Seq<Seq<u8>>,
    log_id: u64,
    chunks: Seq<Vec<u8>>,
    n: nat,
) -> CountStepView
    decreases n,
{
    if n == 0 {
        next_step(path, CountPhase::Opening { log_id }, CountEvent::Opened)
    } else {
        match after_chunks(path, log_id, chunks, (n - 1) as nat) {
            CountStepView::Continue { phase, .. } => next_step(
                path,
                phase,
                CountEvent::Bytes(chunks[n - 1]),
            ),
            done => done,
        }
    }
}

/// The line feeds of two pieces add up.
pub proof fn line_feeds_add_up(a: Seq<u8>, b: Seq<u8>)
    ensures
        line_feeds(a + b) == line_feeds(a) + line_feeds(b),
    decreases b.len(),
{
    if b.len() > 0 {
        line_feeds_add_up(a, b.drop_last());
        assert((a + b).drop_last() =~= a + b.drop_last());
    } else {
        assert(a + b =~= a);
    }
}

proof fn lemma_after_chunks(path: Seq<Seq<u8>>, log_id: u64, chunks: Seq<Vec<u8>>, n: nat)
    requires
        n <= chunks.len(),
        forall|i: int| 0 <= i < n ==> (#[trigger] chunks[i])@.len() > 0,
        line_feeds(joined(chunks, n)) <= usize::MAX,
    ensures
        after_chunks(path, log_id, chunks, n) == (CountStepView::Continue {
            path,
            phase: CountPhase::Reading {
                log_id,
                count: line_feeds(joined(chunks, n)) as usize,
            },
            action: CountActionView::Read,
        }),
    decreases n,
{
    if n > 0 {
        line_feeds_add_up(joined(chunks, (n - 1) as nat), chunks[n - 1]@);
        lemma_after_chunks(path, log_id, chunks, (n - 1) as nat);
    }
}

/// However the bytes of the file are split into chunks, the count is the number of line feeds in
/// the file. The last chunk that is handed over is empty, which marks the end of the file.
pub proof fn count_does_not_depend_on_chunks(
    path: Seq<Seq<u8>>,
    log_id: u64,
    chunks: Seq<Vec<u8>>,
)
    requires
        chunks.len() > 0,
        chunks.last()@.len() == 0,
        forall|i: int| 0 <= i < chunks.len() - 1 ==> (#[trigger] chunks[i])@.len() > 0,
        line_feeds(joined(chunks, chunks.len())) <= usize::MAX,
    ensures
        after_chunks(path, log_id, chunks, chunks.len()) == (CountStepView::Done {
            log_id,
            count: line_feeds(joined(chunks, chunks.len())),
        }),
{
    let n = (chunks.len() - 1) as nat;
    assert(joined(chunks, chunks.len()) =~= joined(chunks, n));
    lemma_after_chunks(path, log_id, chunks, n);
}

/// The number of line feeds in some bytes is the number of those bytes that are line feeds.
pub proof fn line_feeds_are_the_bytes_that_are(bytes: Seq<u8>)
    ensures
        line_feeds(bytes) == bytes.filter(|byte: u8| byte == 10).len(),
    decreases bytes.len(),
{
    reveal(Seq::filter);
    if bytes.len() > 0 {
        line_feeds_are_the_bytes_that_are(bytes.drop_last());
    }
}

/// Where a count of the file at `path` stands after the first `n` of these events.
pub open spec fn after_events(
    path: Seq<Seq<u8>>,
    events: Seq<CountEvent>,
    n: nat,
) -> CountStepView
    decreases n,
{
    if n == 0 {
        CountStepView::Continue {
            path,
            phase: CountPhase::Identifying,
            action: CountActionView::Identify { path },
        }
    } else {
        match after_events(path, events, (n - 1) as nat) {
            CountStepView::Continue { phase, .. } => next_step(path, phase, events[n - 1]),
            done => done,
        }
    }
}

/// A count ends with the identifier that it was told, whatever happens after that, and works on no
/// other file; one that is told none ends with zero.
pub proof fn count_ends_with_the_identifier_it_was_told(
    path: Seq<Seq<u8>>,
    events: Seq<CountEvent>,
    n: nat,
)
    requires
        1 <= n <= events.len(),
    ensures
        events[0] matches CountEvent::Identified { log_id } ==> match after_events(
            path,
            events,
            n,
        ) {
            CountStepView::Done { log_id: told, .. } => told == log_id,
            CountStepView::Continue { path: kept, phase, action } => kept == path && match phase {
                CountPhase::Identifying => false,
                CountPhase::Opening { log_id: told } => told == log_id && n == 1 && action
                    == CountActionView::Open { path },
                CountPhase::Reading { log_id: told, .. } => told == log_id && action is Read,
            },
        },
        events[0] is Failed ==> after_events(path, events, n) == (CountStepView::Done {
            log_id: 0,
            count: 0,
        }),
    decreases n,
{
    if n > 1 {
        count_ends_with_the_identifier_it_was_told(path, events, (n - 1) as nat);
    } else {
        assert(after_events(path, events, 0) is Continue);
    }
}

/// A count that meets a failure ends with no records.
pub proof fn failed_count_finds_no_records(path: Seq<Seq<u8>>, events: Seq<CountEvent>, n: nat)
    requires
        1 <= n <= events.len(),
        after_events(path, events, (n - 1) as nat) is Continue,
        events[n - 1] is Failed,
    ensures
        after_events(path, events, n) matches CountStepView::Done { count, .. } && count
            == 0,
{
}

/// The events of a count in which nothing fails: the file has this identifier and these bytes.
pub open spec fn events_of(log_id: u64, chunks: Seq<Vec<u8>>) -> Seq<CountEvent> {
    seq![CountEvent::Identified { log_id }, CountEvent::Opened] + Seq::new(
        chunks.len(),
        |i: int| CountEvent::Bytes(chunks[i]),
    )
}

/// A count in which nothing fails ends with the identifier of the file and with the number of its
/// bytes that are line feeds, however the bytes are split.
pub proof fn count_tells_what_the_file_is(
    path: Seq<Seq<u8>>,
    log_id: u64,
    chunks: Seq<Vec<u8>>,
)
    requires
        chunks.len() > 0,
        chunks.last()@.len() == 0,
        forall|i: int| 0 <= i < chunks.len() - 1 ==> (#[trigger] chunks[i])@.len() > 0,
        joined(chunks, chunks.len()).filter(|byte: u8| byte == 10).len() <= usize::MAX,
    ensures
        after_events(path, events_of(log_id, chunks), chunks.len() + 2) == (CountStepView::Done {
            log_id,
            count: joined(chunks, chunks.len()).filter(|byte: u8| byte == 10).len(),
        }),
{
    line_feeds_are_the_bytes_that_are(joined(chunks, chunks.len()));
    count_does_not_depend_on_chunks(path, log_id, chunks);
    lemma_events_and_chunks(path, log_id, chunks, chunks.len());
}

proof fn lemma_events_and_chunks(
    path: Seq<Seq<u8>>,
    log_id: u64,
    chunks: Seq<Vec<u8>>,
    n: nat,
)
    requires
        n <= chunks.len(),
    ensures
        after_events(path, events_of(log_id, chunks), n + 2) == after_chunks(
            path,
            log_id,
            chunks,
            n,
        ),
    decreases n,
{
    let events = events_of(log_id, chunks);
    if n == 0 {
        assert(events[0] == CountEvent::Identified { log_id });
        assert(events[1] == CountEvent::Opened);
        assert(after_events(path, events, 0) is Continue);
        assert(after_events(path, events, 1) == next_step(
            path,
            CountPhase::Identifying,
            CountEvent::Identified { log_id },
        ));
        assert(after_events(path, events, 2) == next_step(
            path,
            CountPhase::Opening { log_id },
            CountEvent::Opened,
        ));
    } else {
        lemma_events_and_chunks(path, log_id, chunks, (n - 1) as nat);
        assert(events[(n + 1) as int] == CountEvent::Bytes(chunks[n - 1]));
    }
}

/// A count takes whatever can come of what it asks for, as long as the number of records fits into
/// a machine word.
pub proof fn count_takes_what_can_come(
    log_id: u64,
    count: usize,
    told: u64,
    bytes: Vec<u8>,
)
    ensures
        fits(CountPhase::Identifying, CountEvent::Identified { log_id: told }),
        fits(CountPhase::Identifying, CountEvent::Failed),
        fits(CountPhase::Opening { log_id }, CountEvent::Opened),
        fits(CountPhase::Opening { log_id }, CountEvent::Failed),
        count + bytes@.filter(|byte: u8| byte == 10).len() <= usize::MAX ==> fits(
            CountPhase::Reading { log_id, count },
            CountEvent::Bytes(bytes),
        ),
        fits(CountPhase::Reading { log_id, count }, CountEvent::Failed),
{
    line_feeds_are_the_bytes_that_are(bytes@);
}

/// The views of actions and steps hold all that these say.
pub proof fn views_hold_all_of_a_count(step: CountStep)
    ensures
        match step {
            CountStep::Continue { counting, action } => {
                &&& step@->path == path::path_components(counting.path)
                &&& step@->phase == counting.phase
                &&& step@->action == action@
                &&& match action {
                    CountAction::Identify { path } => action@ == CountActionView::Identify {
                        path: path::path_components(path),
                    },
                    CountAction::Open { path } => action@ == CountActionView::Open {
                        path: path::path_components(path),
                    },
                    CountAction::Read => action@ is Read,
                }
            },
            CountStep::Done { log_id, count } => step@ is Done && step@->log_id == log_id
                && step@->count == count,
        },
{
}

} // verus!
