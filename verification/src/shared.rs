//! Conversions that share a directory and a capture time.
//!
//! Several conversions may run side by side on files of one directory. Their
//! steps then follow each other in an order that nobody fixes, and between
//! the probe of a name and the write under it another conversion may take
//! the name. This module shows that they keep their names apart all the
//! same, as long as every write creates a file that did not exist.

use crate::error::ConvertError;
use crate::naming::{candidate_text, lemma_candidates_distinct, MAX_SUFFIX};
use crate::pipeline::{
    advance_spec, is_candidate, lemma_step_keeps_stem, pending_write, phase_named_after,
    InputView, OutcomeView, PhaseView, StepView,
};
use vstd::prelude::*;

verus! {

/// Whether the candidates of `stem` that a directory holds are the first
/// `count` of them and no others.
pub open spec fn holds_first(directory: Set<Seq<char>>, stem: Seq<char>, count: nat) -> bool {
    forall|k: nat|
        k <= MAX_SUFFIX ==> (directory.contains(#[trigger] candidate_text(stem, k)) <==> k < count)
}

/// Whether a directory holds every candidate of a smaller number than the
/// one that a conversion has reached.
pub open spec fn below_taken(directory: Set<Seq<char>>, phase: PhaseView) -> bool {
    match phase {
        PhaseView::Naming { stem, counter } => forall|j: nat|
            j < counter ==> directory.contains(#[trigger] candidate_text(stem, j)),
        PhaseView::Pixels { stem, counter } => forall|j: nat|
            j < counter ==> directory.contains(#[trigger] candidate_text(stem, j)),
        PhaseView::Writing { stem, counter } => forall|j: nat|
            j < counter ==> directory.contains(#[trigger] candidate_text(stem, j)),
        _ => true,
    }
}

/// Whether `input` is what a directory that holds exactly the names in
/// `directory` answers to what the phase has asked of it: to a probe,
/// whether it holds the name; to a write, that the name is taken where it
/// holds it, and that the file was written where it does not. What is asked
/// of the source is not the directory's to answer.
pub open spec fn answered_by(
    directory: Set<Seq<char>>,
    phase: PhaseView,
    input: InputView,
) -> bool {
    match phase {
        PhaseView::Naming { stem, counter } => input == (InputView::Probed {
            exists: directory.contains(candidate_text(stem, counter)),
        }),
        PhaseView::Writing { stem, counter } => if directory.contains(
            candidate_text(stem, counter),
        ) {
            input is NameTaken
        } else {
            input is Written
        },
        _ => true,
    }
}

/// The directory after the action of a phase was answered with `input`: a
/// write that was done adds its name.
pub open spec fn directory_with(
    directory: Set<Seq<char>>,
    phase: PhaseView,
    input: InputView,
) -> Set<Seq<char>> {
    match phase {
        PhaseView::Writing { stem, counter } => if input is Written {
            directory.insert(candidate_text(stem, counter))
        } else {
            directory
        },
        _ => directory,
    }
}

/// Conversions that share a capture time and a directory keep their names
/// apart in whatever order their steps are taken. Where the directory holds
/// the first `count` candidates, one step of one of the conversions,
/// answered by the directory as it is at that moment, either writes
/// candidate `count`, which the directory does not hold, and leaves it with
/// the first `count` + 1, or leaves it as it is. No name is lost, and the
/// conversion stays past candidates that are all taken.
pub proof fn lemma_step_keeps_names_apart(
    directory: Set<Seq<char>>,
    stem: Seq<char>,
    count: nat,
    phase: PhaseView,
    input: InputView,
)
    requires
        holds_first(directory, stem, count),
        phase_named_after(stem, phase),
        below_taken(directory, phase),
        answered_by(directory, phase, input),
    ensures
        directory.subset_of(directory_with(directory, phase, input)),
        if phase is Writing && input is Written {
            &&& count <= MAX_SUFFIX
            &&& pending_write(phase) == Some(candidate_text(stem, count))
            &&& !directory.contains(candidate_text(stem, count))
            &&& holds_first(directory_with(directory, phase, input), stem, count + 1)
        } else {
            directory_with(directory, phase, input) == directory
        },
        advance_spec(phase, input) matches StepView::Next(next, _) ==> below_taken(
            directory_with(directory, phase, input),
            next,
        ),
{
    let after = directory_with(directory, phase, input);
    match phase {
        PhaseView::Writing { stem: own, counter } => {
            let name = candidate_text(stem, counter);
            if input is Written {
                assert(!(counter < count));
                if count < counter {
                    assert(directory.contains(candidate_text(stem, count)));
                }
                assert(counter == count);
                assert forall|k: nat| k <= MAX_SUFFIX implies (after.contains(
                    #[trigger] candidate_text(stem, k),
                ) <==> k < count + 1) by {
                    if k != count {
                        lemma_candidates_distinct(stem, k, count);
                    }
                }
            } else if input is NameTaken {
                if counter < MAX_SUFFIX {
                    assert forall|j: nat| j < counter + 1 implies after.contains(
                        #[trigger] candidate_text(stem, j),
                    ) by {
                        if j < counter {
                            assert(directory.contains(candidate_text(stem, j)));
                        }
                    }
                }
            }
        },
        PhaseView::Naming { stem: own, counter } => {
            if directory.contains(candidate_text(stem, counter)) && counter < MAX_SUFFIX {
                assert forall|j: nat| j < counter + 1 implies after.contains(
                    #[trigger] candidate_text(stem, j),
                ) by {
                    if j < counter {
                        assert(directory.contains(candidate_text(stem, j)));
                    }
                }
            }
        },
        _ => {},
    }
}

/// What another conversion adds to the directory does not set this one
/// back: the candidates below the one it has reached stay taken.
pub proof fn lemma_growth_keeps_below_taken(
    directory: Set<Seq<char>>,
    grown: Set<Seq<char>>,
    phase: PhaseView,
)
    requires
        below_taken(directory, phase),
        directory.subset_of(grown),
    ensures
        below_taken(grown, phase),
{
}

/// One of the conversions: where it stands, or how it ended.
pub enum WorkerView {
    Running(PhaseView),
    Finished(OutcomeView),
}

/// The directory and the conversions in it.
pub struct World {
    pub directory: Set<Seq<char>>,
    pub workers: Seq<WorkerView>,
}

/// One step in the common course of the conversions: which of them takes
/// it, and the input that it takes.
pub struct Tick {
    pub worker: int,
    pub input: InputView,
}

/// Whether a tick can be taken: it names one of the conversions, and its
/// input is what the directory answers at that moment.
pub open spec fn tick_allowed(world: World, tick: Tick) -> bool {
    &&& 0 <= tick.worker < world.workers.len()
    &&& world.workers[tick.worker] matches WorkerView::Running(phase) ==> answered_by(
        world.directory,
        phase,
        tick.input,
    )
}

/// The world after a tick: the conversion has taken its step, and the
/// directory holds what it wrote. A conversion that has ended stays as it
/// is.
pub open spec fn after_tick(world: World, tick: Tick) -> World {
    match world.workers[tick.worker] {
        WorkerView::Running(phase) => World {
            directory: directory_with(world.directory, phase, tick.input),
            workers: world.workers.update(
                tick.worker,
                match advance_spec(phase, tick.input) {
                    StepView::Next(next, _) => WorkerView::Running(next),
                    StepView::Done(outcome) => WorkerView::Finished(outcome),
                },
            ),
        },
        WorkerView::Finished(_) => world,
    }
}

/// Whether every tick of a course can be taken in the world that the ticks
/// before it have left.
pub open spec fn course_allowed(world: World, ticks: Seq<Tick>) -> bool
    decreases ticks.len(),
{
    ticks.len() == 0 || (tick_allowed(world, ticks[0]) && course_allowed(
        after_tick(world, ticks[0]),
        ticks.skip(1),
    ))
}

/// The world after a course of ticks.
pub open spec fn after_course(world: World, ticks: Seq<Tick>) -> World
    decreases ticks.len(),
{
    if ticks.len() == 0 {
        world
    } else {
        after_course(after_tick(world, ticks[0]), ticks.skip(1))
    }
}

/// Whether a conversion has written its file: it waits for the deletion of
/// its source, or has ended converted, or with the deletion failed.
pub open spec fn has_written(worker: WorkerView) -> bool {
    match worker {
        WorkerView::Running(PhaseView::Deleting { .. }) => true,
        WorkerView::Finished(OutcomeView::Converted { .. }) => true,
        WorkerView::Finished(OutcomeView::Failed { error }) => error == ConvertError::DeleteFailure,
        _ => false,
    }
}

/// How many of the conversions have written their file.
pub open spec fn files_written(workers: Seq<WorkerView>) -> nat
    decreases workers.len(),
{
    if workers.len() == 0 {
        0
    } else {
        files_written(workers.drop_last()) + if has_written(workers.last()) {
            1nat
        } else {
            0nat
        }
    }
}

/// Whether a conversion has ended with its file converted.
pub open spec fn is_converted(worker: WorkerView) -> bool {
    worker matches WorkerView::Finished(OutcomeView::Converted { .. })
}

/// The name of the file that a conversion has written, as far as it still
/// knows it.
pub open spec fn name_of(worker: WorkerView) -> Option<Seq<char>> {
    match worker {
        WorkerView::Running(PhaseView::Deleting { name }) => Some(name),
        WorkerView::Finished(OutcomeView::Converted { name }) => Some(name),
        _ => None,
    }
}

/// Whether a conversion is in order in a directory: it keeps to the stem,
/// the candidates below the one it has reached are taken, and the file that
/// it has written is there.
pub open spec fn worker_orderly(
    directory: Set<Seq<char>>,
    stem: Seq<char>,
    worker: WorkerView,
) -> bool {
    match worker {
        WorkerView::Running(phase) => phase_named_after(stem, phase) && below_taken(
            directory,
            phase,
        ) && (phase matches PhaseView::Deleting { name } ==> directory.contains(name)),
        WorkerView::Finished(OutcomeView::Converted { name }) => directory.contains(name)
            && is_candidate(stem, name),
        WorkerView::Finished(OutcomeView::Failed { .. }) => true,
    }
}

/// Whether a world is in order: the directory holds as many candidates as
/// files were written, the first ones; every conversion is in order; and
/// no two conversions have written the same name.
pub open spec fn orderly(world: World, stem: Seq<char>) -> bool {
    &&& holds_first(world.directory, stem, files_written(world.workers))
    &&& forall|i: int|
        0 <= i < world.workers.len() ==> worker_orderly(
            world.directory,
            stem,
            #[trigger] world.workers[i],
        )
    &&& forall|i: int, j: int|
        0 <= i < j < world.workers.len() && name_of(#[trigger] world.workers[i]) is Some ==> name_of(
            world.workers[i],
        ) != name_of(#[trigger] world.workers[j])
}

/// Whether a world is at the start of the race: the directory holds no
/// candidate of the stem, and every conversion has just found the capture
/// time and is about to probe the first candidate.
pub open spec fn fresh(world: World, stem: Seq<char>) -> bool {
    &&& holds_first(world.directory, stem, 0)
    &&& forall|i: int|
        0 <= i < world.workers.len() ==> #[trigger] world.workers[i] == WorkerView::Running(
            PhaseView::Naming { stem, counter: 0 },
        )
}

proof fn lemma_count_after_update(workers: Seq<WorkerView>, i: int, worker: WorkerView)
    requires
        0 <= i < workers.len(),
    ensures
        files_written(workers.update(i, worker)) + (if has_written(workers[i]) {
            1nat
        } else {
            0nat
        }) == files_written(workers) + (if has_written(worker) {
            1nat
        } else {
            0nat
        }),
    decreases workers.len(),
{
    let updated = workers.update(i, worker);
    if i == workers.len() - 1 {
        assert(updated.drop_last() =~= workers.drop_last());
    } else {
        assert(updated.drop_last() =~= workers.drop_last().update(i, worker));
        assert(updated.last() == workers.last());
        lemma_count_after_update(workers.drop_last(), i, worker);
    }
}

proof fn lemma_count_of_none(workers: Seq<WorkerView>)
    requires
        forall|i: int| 0 <= i < workers.len() ==> !has_written(#[trigger] workers[i]),
    ensures
        files_written(workers) == 0,
    decreases workers.len(),
{
    if workers.len() > 0 {
        assert forall|i: int| 0 <= i < workers.drop_last().len() implies !has_written(
            #[trigger] workers.drop_last()[i],
        ) by {
            assert(workers.drop_last()[i] == workers[i]);
        }
        lemma_count_of_none(workers.drop_last());
    }
}

proof fn lemma_count_of_all(workers: Seq<WorkerView>)
    requires
        forall|i: int| 0 <= i < workers.len() ==> has_written(#[trigger] workers[i]),
    ensures
        files_written(workers) == workers.len(),
    decreases workers.len(),
{
    if workers.len() > 0 {
        assert forall|i: int| 0 <= i < workers.drop_last().len() implies has_written(
            #[trigger] workers.drop_last()[i],
        ) by {
            assert(workers.drop_last()[i] == workers[i]);
        }
        lemma_count_of_all(workers.drop_last());
    }
}

/// A tick leaves a world in order.
pub proof fn lemma_tick_keeps_order(world: World, stem: Seq<char>, tick: Tick)
    requires
        orderly(world, stem),
        tick_allowed(world, tick),
    ensures
        orderly(after_tick(world, tick), stem),
        after_tick(world, tick).workers.len() == world.workers.len(),
{
    let after = after_tick(world, tick);
    let who = tick.worker;
    match world.workers[who] {
        WorkerView::Finished(_) => {},
        WorkerView::Running(phase) => {
            let count = files_written(world.workers);
            let worker = after.workers[who];
            assert(worker_orderly(world.directory, stem, world.workers[who]));
            lemma_step_keeps_names_apart(world.directory, stem, count, phase, tick.input);
            lemma_step_keeps_stem(stem, phase, tick.input);
            lemma_count_after_update(world.workers, who, worker);
            let wrote = phase is Writing && tick.input is Written;
            assert(has_written(worker) == (has_written(world.workers[who]) || wrote));
            assert(!wrote ==> name_of(worker) is Some ==> name_of(worker) == name_of(
                world.workers[who],
            ));
            assert(worker_orderly(after.directory, stem, worker));
            assert forall|i: int| 0 <= i < after.workers.len() implies worker_orderly(
                after.directory,
                stem,
                #[trigger] after.workers[i],
            ) by {
                if i != who {
                    assert(after.workers[i] == world.workers[i]);
                    assert(worker_orderly(world.directory, stem, world.workers[i]));
                    match world.workers[i] {
                        WorkerView::Running(other) => {
                            lemma_growth_keeps_below_taken(world.directory, after.directory, other);
                        },
                        _ => {},
                    }
                }
            }
            assert forall|i: int, j: int|
                0 <= i < j < after.workers.len() && name_of(
                    #[trigger] after.workers[i],
                ) is Some implies name_of(after.workers[i]) != name_of(
                #[trigger] after.workers[j],
            ) by {
                if name_of(after.workers[j]) is Some {
                    if i != who && j != who {
                        assert(after.workers[i] == world.workers[i]);
                        assert(after.workers[j] == world.workers[j]);
                    } else {
                        let other = if i == who {
                            j
                        } else {
                            i
                        };
                        assert(after.workers[other] == world.workers[other]);
                        assert(worker_orderly(world.directory, stem, world.workers[other]));
                        assert(world.directory.contains(name_of(world.workers[other])->0));
                        if wrote {
                            assert(name_of(worker) == Some(candidate_text(stem, count)));
                        } else {
                            assert(name_of(world.workers[who]) == name_of(worker));
                        }
                    }
                }
            }
        },
    }
}

/// Conversions that race for names keep them apart. Where any number of
/// conversions with one capture time start in a directory without a
/// candidate of its stem, and their steps are taken in any order, each
/// answered by the directory as it is at that moment, then at every moment
/// the directory holds exactly the first candidates, as many as files were
/// written; every converted file is there under a candidate as its name;
/// and no two converted files have the same name. Once all are converted,
/// the directory holds the base name and the numbers 1 to one less than the
/// number of files, and nothing was overwritten.
pub proof fn lemma_racing_conversions_keep_names_apart(
    world: World,
    stem: Seq<char>,
    ticks: Seq<Tick>,
)
    requires
        fresh(world, stem),
        course_allowed(world, ticks),
    ensures
        ({
            let end = after_course(world, ticks);
            &&& end.workers.len() == world.workers.len()
            &&& holds_first(end.directory, stem, files_written(end.workers))
            &&& forall|i: int|
                0 <= i < end.workers.len() ==> (#[trigger] end.workers[i] matches WorkerView::Finished(
                    OutcomeView::Converted { name },
                ) ==> end.directory.contains(name) && is_candidate(stem, name))
            &&& forall|i: int, j: int|
                0 <= i < j < end.workers.len() && name_of(#[trigger] end.workers[i]) is Some
                    ==> name_of(end.workers[i]) != name_of(#[trigger] end.workers[j])
            &&& (forall|i: int|
                0 <= i < end.workers.len() ==> is_converted(#[trigger] end.workers[i]))
                ==> holds_first(end.directory, stem, end.workers.len())
        }),
{
    assert(orderly(world, stem)) by {
        lemma_count_of_none(world.workers);
    }
    lemma_course_keeps_order(world, stem, ticks);
    let end = after_course(world, ticks);
    assert forall|i: int| 0 <= i < end.workers.len() implies (
    #[trigger] end.workers[i] matches WorkerView::Finished(OutcomeView::Converted { name })
        ==> end.directory.contains(name) && is_candidate(stem, name)) by {
        assert(worker_orderly(end.directory, stem, end.workers[i]));
    }
    if forall|i: int| 0 <= i < end.workers.len() ==> is_converted(#[trigger] end.workers[i]) {
        assert forall|i: int| 0 <= i < end.workers.len() implies has_written(
            #[trigger] end.workers[i],
        ) by {
            assert(is_converted(end.workers[i]));
        }
        lemma_count_of_all(end.workers);
    }
}

/// A course of ticks leaves a world in order.
pub proof fn lemma_course_keeps_order(world: World, stem: Seq<char>, ticks: Seq<Tick>)
    requires
        orderly(world, stem),
        course_allowed(world, ticks),
    ensures
        orderly(after_course(world, ticks), stem),
        after_course(world, ticks).workers.len() == world.workers.len(),
    decreases ticks.len(),
{
    if ticks.len() > 0 {
        lemma_tick_keeps_order(world, stem, ticks[0]);
        lemma_course_keeps_order(after_tick(world, ticks[0]), stem, ticks.skip(1));
    }
}

} // verus!
