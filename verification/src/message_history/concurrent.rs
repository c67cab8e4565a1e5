//! Appends that run at the same time.
//!
//! Several appends, each in a process of its own, share one history file and one lock. They take
//! their steps in any order. A write may take several steps, between which others take theirs, and
//! nothing but the rule that an append writes only under the lock keeps the lines apart.

use super::append;
use super::append::{AppendActionView, AppendEventView, AppendPhase, AppendStepView, AppendView};
use super::EntryView;
use crate::config::Config;
use vstd::prelude::*;

verus! {

/// What one append is to write, and when it asks for the time.
pub struct Job {
    pub session_id: Seq<char>,
    pub text: Seq<char>,
    pub now: u64,
}

/// The state of the file, of its lock and of all appends.
#[verifier::ext_equal]
pub struct World {
    pub content: Seq<char>,
    /// The append that holds the lock.
    pub holder: Option<int>,
    pub steps: Seq<AppendStepView>,
    /// How much each append has written of its line.
    pub done: Seq<nat>,
}

/// How records are encoded.
pub type Encoder = spec_fn(EntryView) -> Seq<char>;

/// The record of a job.
pub open spec fn entry_of(job: Job) -> EntryView {
    EntryView { session_id: job.session_id, ts: job.now, text: job.text }
}

/// The line that a job is to add to the file.
pub open spec fn line_of(job: Job, encode: Encoder) -> Seq<char> {
    encode(entry_of(job)).push('\n')
}

/// The lines of these jobs, one after the other.
pub open spec fn lines_in_order(jobs: Seq<Job>, encode: Encoder, order: Seq<int>) -> Seq<char>
    decreases order.len(),
{
    if order.len() == 0 {
        Seq::empty()
    } else {
        lines_in_order(jobs, encode, order.drop_last()) + line_of(jobs[order.last()], encode)
    }
}

/// What can come of an action that touches neither the lock nor the content of the file.
pub open spec fn is_answer(
    job: Job,
    encode: Encoder,
    append: AppendView,
    action: AppendActionView,
    event: AppendEventView,
) -> bool {
    &&& append::fits(append.phase, event)
    &&& event matches AppendEventView::Time(ts) ==> ts == job.now
    &&& event matches AppendEventView::Serialised(json) ==> action is Serialise && json == encode(
        action->Serialise_0,
    )
}

/// The world after the append `who` has got to `step`. An append that has ended has closed its file
/// and holds no lock any more.
pub open spec fn moved(world: World, who: int, step: AppendStepView) -> World {
    World {
        holder: if step is Done && world.holder == Some(who) {
            None
        } else {
            world.holder
        },
        steps: world.steps.update(who, step),
        ..world
    }
}

/// The world after the append `who` has written its line up to `upto`.
pub open spec fn written(
    world: World,
    who: int,
    append: AppendView,
    line: Seq<char>,
    upto: nat,
) -> World {
    let grown = World {
        content: world.content + line.subrange(world.done[who] as int, upto as int),
        done: world.done.update(who, upto),
        ..world
    };
    if upto < line.len() {
        grown
    } else {
        moved(grown, who, append::next_step(append, AppendEventView::Written))
    }
}

/// The append `who` can take a step from `before` to `after`. The lock can be had if nobody holds
/// it. Any action but a write may fail.
pub open spec fn can_step(
    jobs: Seq<Job>,
    encode: Encoder,
    before: World,
    after: World,
    who: int,
) -> bool {
    &&& 0 <= who < jobs.len()
    &&& match before.steps[who] {
        AppendStepView::Continue { append, action } => match action {
            AppendActionView::TryLock => {
                ||| before.holder is None && after == (World {
                    holder: Some(who),
                    ..moved(before, who, append::next_step(append, AppendEventView::Locked))
                })
                ||| before.holder is Some && after == moved(
                    before,
                    who,
                    append::next_step(append, AppendEventView::WouldBlock),
                )
                ||| after == moved(
                    before,
                    who,
                    append::next_step(append, AppendEventView::Failed),
                )
            },
            AppendActionView::Write(line) => exists|upto: nat|
                before.done[who] < upto <= line.len() && after == #[trigger] written(
                    before,
                    who,
                    append,
                    line,
                    upto,
                ),
            _ => exists|event: AppendEventView|
                is_answer(jobs[who], encode, append, action, event) && after == moved(
                    before,
                    who,
                    #[trigger] append::next_step(append, event),
                ),
        },
        AppendStepView::Done(_) => false,
    }
}

/// One of the appends can take a step from `before` to `after`.
pub open spec fn is_step(
    jobs: Seq<Job>,
    encode: Encoder,
    before: World,
    after: World,
) -> bool {
    exists|who: int| can_step(jobs, encode, before, after, who)
}

/// Nothing has been done for any of the jobs.
pub open spec fn is_start(jobs: Seq<Job>, config: Config, world: World) -> bool {
    &&& world.holder is None
    &&& world.steps.len() == jobs.len()
    &&& world.done.len() == jobs.len()
    &&& forall|i: int|
        0 <= i < jobs.len() ==> #[trigger] world.steps[i] == append::start_of_append(
            jobs[i].text,
            jobs[i].session_id,
            config,
        ) && world.done[i] == 0
}

/// The worlds follow one another by steps of the appends.
pub open spec fn is_execution(jobs: Seq<Job>, encode: Encoder, worlds: Seq<World>) -> bool {
    &&& worlds.len() > 0
    &&& forall|t: int|
        0 <= t < worlds.len() - 1 ==> is_step(jobs, encode, #[trigger] worlds[t], worlds[t + 1])
}

/// `order` lists the appends that have succeeded, each of them once.
pub open spec fn lists_the_successful(world: World, order: Seq<int>) -> bool {
    &&& order.no_duplicates()
    &&& forall|i: int| #[trigger]
        order.contains(i) <==> 0 <= i < world.steps.len() && world.steps[i]
            == AppendStepView::Done(Ok(()))
}

/// What the append that holds the lock has written so far.
spec fn unfinished(jobs: Seq<Job>, encode: Encoder, world: World) -> Seq<char> {
    match world.holder {
        Some(who) => line_of(jobs[who], encode).subrange(0, world.done[who] as int),
        None => Seq::empty(),
    }
}

/// The action that an append asks for is the one of its phase.
spec fn asks_rightly(
    job: Job,
    encode: Encoder,
    append: AppendView,
    action: AppendActionView,
) -> bool {
    let line = line_of(job, encode);
    match append.phase {
        AppendPhase::CreatingDirectory => action is CreateDirectory,
        AppendPhase::Timing => action is TellTime,
        AppendPhase::Serialising => action == AppendActionView::Serialise(entry_of(job)),
        AppendPhase::Opening => action is Open && append.line == line,
        AppendPhase::Inspecting => action is TellMode && append.line == line,
        AppendPhase::Restricting => action is SetMode && append.line == line,
        AppendPhase::Locking { .. } => action is TryLock && append.line == line,
        AppendPhase::Waiting { .. } => action is Sleep && append.line == line,
        AppendPhase::Writing => action == AppendActionView::Write(line),
    }
}

/// The append of a job is where it can be; it is writing if and only if it holds the lock.
spec fn is_consistent(job: Job, encode: Encoder, world: World, who: int) -> bool {
    match world.steps[who] {
        AppendStepView::Continue { append, action } => {
            &&& append.session_id == job.session_id
            &&& append.text == job.text
            &&& asks_rightly(job, encode, append, action)
            &&& append.phase is Writing <==> world.holder == Some(who)
            &&& world.done[who] < line_of(job, encode).len()
            &&& append.phase !is Writing ==> world.done[who] == 0
        },
        AppendStepView::Done(_) => world.holder != Some(who),
    }
}

/// The file holds what it held at the start, the lines of the appends that have succeeded, and what
/// the one that is writing has written.
spec fn is_invariant(
    jobs: Seq<Job>,
    encode: Encoder,
    start: Seq<char>,
    world: World,
    order: Seq<int>,
) -> bool {
    &&& world.steps.len() == jobs.len()
    &&& world.done.len() == jobs.len()
    &&& world.holder matches Some(who) ==> 0 <= who < jobs.len()
    &&& forall|i: int|
        0 <= i < jobs.len() ==> #[trigger] is_consistent(jobs[i], encode, world, i)
    &&& lists_the_successful(world, order)
    &&& world.content == start + lines_in_order(jobs, encode, order) + unfinished(
        jobs,
        encode,
        world,
    )
}

proof fn lemma_step(
    jobs: Seq<Job>,
    encode: Encoder,
    start: Seq<char>,
    before: World,
    after: World,
    who: int,
    order: Seq<int>,
) -> (next: Seq<int>)
    requires
        is_invariant(jobs, encode, start, before, order),
        can_step(jobs, encode, before, after, who),
    ensures
        is_invariant(jobs, encode, start, after, next),
{
    let line = line_of(jobs[who], encode);
    let append = before.steps[who]->append;
    let action = before.steps[who]->action;
    assert(is_consistent(jobs[who], encode, before, who));
    if action is Write {
        let upto = choose|upto: nat|
            before.done[who] < upto <= line.len() && after == #[trigger] written(
                before,
                who,
                append,
                line,
                upto,
            );
        let done = before.done[who] as int;
        assert(line.subrange(0, done) + line.subrange(done, upto as int) =~= line.subrange(
            0,
            upto as int,
        ));
        let kept = start + lines_in_order(jobs, encode, order);
        assert(kept + line.subrange(0, done) + line.subrange(done, upto as int) =~= kept + (
        line.subrange(0, done) + line.subrange(done, upto as int)));
        assert forall|i: int| 0 <= i < jobs.len() implies #[trigger] is_consistent(
            jobs[i],
            encode,
            after,
            i,
        ) by {
            assert(is_consistent(jobs[i], encode, before, i));
        }
        if upto < line.len() {
            assert(lists_the_successful(after, order));
            assert(unfinished(jobs, encode, after) == line.subrange(0, upto as int));
            assert(is_invariant(jobs, encode, start, after, order));
            order
        } else {
            let next = order.push(who);
            assert(!order.contains(who));
            assert(next.drop_last() =~= order);
            assert(line.subrange(0, upto as int) =~= line);
            assert(after.steps[who] == AppendStepView::Done(Ok(())));
            assert(kept + line =~= start + lines_in_order(jobs, encode, next));
            assert(after.content =~= start + lines_in_order(jobs, encode, next) + Seq::empty());
            assert forall|i: int| #[trigger] next.contains(i) <==> 0 <= i < after.steps.len()
                && after.steps[i] == AppendStepView::Done(Ok(())) by {
                if i == who {
                    assert(next[order.len() as int] == who);
                } else {
                    assert(order.contains(i) == next.contains(i)) by {
                        if order.contains(i) {
                            let k = order.index_of(i);
                            assert(next[k] == i);
                        }
                        if next.contains(i) {
                            let k = next.index_of(i);
                            assert(order[k] == i);
                        }
                    }
                }
            }
            assert(is_invariant(jobs, encode, start, after, next));
            next
        }
    } else {
        assert(after.content == before.content);
        assert(after.steps[who] != AppendStepView::Done(Ok(())));
        assert forall|i: int| 0 <= i < jobs.len() implies #[trigger] is_consistent(
            jobs[i],
            encode,
            after,
            i,
        ) by {
            assert(is_consistent(jobs[i], encode, before, i));
        }
        assert forall|i: int| #[trigger] order.contains(i) <==> 0 <= i < after.steps.len()
            && after.steps[i] == AppendStepView::Done(Ok(())) by {}
        if before.holder is None {
            assert(unfinished(jobs, encode, after) =~= Seq::empty());
        }
        assert(unfinished(jobs, encode, after) == unfinished(jobs, encode, before));
        order
    }
}

proof fn lemma_execution(
    jobs: Seq<Job>,
    encode: Encoder,
    config: Config,
    worlds: Seq<World>,
    t: nat,
) -> (order: Seq<int>)
    requires
        config.history.persistence is SaveAll,
        is_execution(jobs, encode, worlds),
        is_start(jobs, config, worlds[0]),
        t < worlds.len(),
    ensures
        is_invariant(jobs, encode, worlds[0].content, worlds[t as int], order),
    decreases t,
{
    if t == 0 {
        let order = Seq::<int>::empty();
        assert(worlds[0].content =~= worlds[0].content + lines_in_order(jobs, encode, order)
            + Seq::empty());
        order
    } else {
        let order = lemma_execution(jobs, encode, config, worlds, (t - 1) as nat);
        let before = worlds[t - 1];
        assert(is_step(jobs, encode, before, worlds[t - 1 + 1]));
        let who = choose|who: int| can_step(jobs, encode, before, worlds[t as int], who);
        lemma_step(
            jobs,
            encode,
            worlds[0].content,
            before,
            worlds[t as int],
            who,
            order,
        )
    }
}

/// Appends that run at the same time do not get into each other's way: when all of them have ended,
/// the file holds what it held before, followed by the full lines of those that succeeded, each of
/// them once, in some order. None is lost, split or mixed with another.
pub proof fn concurrent_appends_do_not_interleave(
    jobs: Seq<Job>,
    encode: Encoder,
    config: Config,
    worlds: Seq<World>,
)
    requires
        config.history.persistence is SaveAll,
        is_execution(jobs, encode, worlds),
        is_start(jobs, config, worlds[0]),
        forall|i: int| 0 <= i < jobs.len() ==> #[trigger] worlds.last().steps[i] is Done,
    ensures
        exists|order: Seq<int>| #[trigger]
            lists_the_successful(worlds.last(), order) && worlds.last().content
                == worlds[0].content + lines_in_order(jobs, encode, order),
{
    let order = lemma_execution(jobs, encode, config, worlds, (worlds.len() - 1) as nat);
    let end = worlds.last();
    if end.holder is Some {
        let who = end.holder->0;
        assert(is_consistent(jobs[who], encode, end, who));
    }
    assert(end.content =~= worlds[0].content + lines_in_order(jobs, encode, order));
    assert(lists_the_successful(end, order));
}

/// At every moment of such a run, also while one of the appends is writing, what the file held at
/// the start is still there, in front of all that was added.
pub proof fn concurrent_appends_only_add(
    jobs: Seq<Job>,
    encode: Encoder,
    config: Config,
    worlds: Seq<World>,
    t: nat,
)
    requires
        config.history.persistence is SaveAll,
        is_execution(jobs, encode, worlds),
        is_start(jobs, config, worlds[0]),
        t < worlds.len(),
    ensures
        worlds[0].content.is_prefix_of(worlds[t as int].content),
{
    let order = lemma_execution(jobs, encode, config, worlds, t);
    let start = worlds[0].content;
    let rest = lines_in_order(jobs, encode, order) + unfinished(jobs, encode, worlds[t as int]);
    assert(worlds[t as int].content =~= start + rest);
}

} // verus!
