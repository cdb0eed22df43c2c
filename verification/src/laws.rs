//! What holds of every run.
//!
//! The laws speak of the rules of [`crate::schedule`]: of a runner as
//! plain values and of the events that come to it. A runner follows the
//! rules move by move, so the laws hold of what it does.
//!
//! - A run in which nothing fails that must not fail ends as completed.
//! - A run in which a task fails that must not fail ends as failed, in the
//!   window of that task.
//! - A run that nothing holds up gets through, in two moves for each task.

use crate::schedule::{lemma_next_window_is_aligned, EventView, Phase, RunnerView};
use crate::task::{ObservationView, TaskStatus, TaskView};
use vstd::prelude::*;

verus! {

/// An event that tells of no failure: a spawned process, the end of a
/// pause, a process still at work, or an exit with code 0.
pub open spec fn is_clean(event: EventView) -> bool {
    match event {
        EventView::Spawned => true,
        EventView::Slept => true,
        EventView::Observed(ObservationView::StillRunning) => true,
        EventView::Observed(ObservationView::Exited { code, .. }) => code == Some(0i32),
        _ => false,
    }
}

impl RunnerView {
    /// The runner after it has taken in `events`, one after the other.
    pub open spec fn after(self, events: Seq<EventView>, verbose: bool) -> RunnerView
        decreases events.len(),
    {
        if events.len() == 0 {
            self
        } else {
            self.after(events.drop_last(), verbose).step(events.last(), verbose).runner
        }
    }

    /// No pending task has failed that must not.
    pub open spec fn is_unfailed(self) -> bool {
        forall|j: int| 0 <= j < self.pending.len() ==> !(#[trigger] self.pending[j]).is_fatal()
    }

    /// The event brings no failure that the run cannot bear: it is no
    /// spawn that failed, no look that ends the program, and no look that
    /// shows the task at hand to have failed though it must not.
    pub open spec fn bears(self, event: EventView) -> bool {
        match self.phase {
            Phase::Spawning { .. } => !(event is SpawnFailed),
            Phase::Polling { task, .. } => match event {
                EventView::Observed(seen) => {
                    let polled = self.pending[task as int];
                    polled.given_up(seen) is None && !polled.observed(seen).is_fatal()
                },
                _ => true,
            },
            _ => true,
        }
    }

    /// The runner bears each of the events as it comes.
    pub open spec fn bears_all(self, events: Seq<EventView>, verbose: bool) -> bool {
        forall|i: int|
            0 <= i < events.len() ==> #[trigger] self.after(events.take(i), verbose).bears(
                events[i],
            )
    }

    /// A run without a failure that must not be is under way, or is over
    /// and completed.
    pub open spec fn is_sound(self) -> bool {
        &&& self.wf()
        &&& self.is_unfailed()
        &&& self.is_active() || self.status == TaskStatus::completed()
    }

    proof fn lemma_spawn_on_sound(self, start: int, from: int)
        requires
            self.in_run(),
            self.is_unfailed(),
            self.has_window_at(start),
            start <= from <= self.window_end(start),
            self.none_waiting(start, from),
        ensures
            self.spawn_on(start, from).runner.is_sound(),
            !(self.spawn_on(start, from).action is Abort),
        decreases self.limit - start, 1int,
    {
        let end = self.window_end(start);
        self.lemma_spawn_on_wf(start, from);
        self.lemma_first_in(TaskStatus::waiting(), from, end);
        let task = self.first_in(TaskStatus::waiting(), from, end);
        if !(0 <= start <= task < end) {
            self.lemma_poll_on_sound(start, start);
        }
    }

    proof fn lemma_poll_on_sound(self, start: int, from: int)
        requires
            self.in_run(),
            self.is_unfailed(),
            self.has_window_at(start),
            start <= from <= self.window_end(start),
            self.none_waiting(start, self.window_end(start)),
        ensures
            self.poll_on(start, from).runner.is_sound(),
            !(self.poll_on(start, from).action is Abort),
        decreases self.limit - start, 0int,
    {
        let end = self.window_end(start);
        self.lemma_poll_on_wf(start, from);
        self.lemma_first_in(TaskStatus::running(), from, end);
        let task = self.first_in(TaskStatus::running(), from, end);
        if !(0 <= start <= task < end) && self.resolved(start, end) && start < end < self.limit {
            lemma_next_window_is_aligned(start, self.width as int);
            self.lemma_spawn_on_sound(end, end);
        }
    }

    /// A run is sound from its beginning, where no pending task has
    /// failed already though it must not.
    pub proof fn lemma_run_sound(self)
        requires
            self.wf(),
            !self.is_active(),
            self.is_unfailed(),
        ensures
            self.run().runner.is_sound(),
            !(self.run().action is Abort),
    {
        self.lemma_run_wf();
        let begun = RunnerView {
            status: TaskStatus::running(),
            limit: self.pending.len(),
            width: self.max_proc,
            ..self
        };
        if begun.limit > 0 {
            begun.lemma_spawn_on_sound(0, 0);
        }
    }

    /// A sound run stays sound over every event that it bears, and such
    /// an event never ends the program.
    pub proof fn lemma_step_sound(self, event: EventView, verbose: bool)
        requires
            self.is_sound(),
            self.bears(event),
        ensures
            self.step(event, verbose).runner.is_sound(),
            !(self.step(event, verbose).action is Abort),
    {
        self.lemma_step_wf(event, verbose);
        match self.phase {
            Phase::Idle => {},
            Phase::Spawning { start, task } => {
                if event is Spawned {
                    let next = self.with_task(task as int, self.pending[task as int].started());
                    assert(next.is_unfailed());
                    next.lemma_spawn_on_sound(start as int, task + 1);
                }
            },
            Phase::Polling { start, task } => {
                if let EventView::Observed(seen) = event {
                    let polled = self.pending[task as int];
                    let next = self.with_task(task as int, polled.observed(seen));
                    assert(next.is_unfailed());
                    next.lemma_poll_on_sound(start as int, task + 1);
                }
            },
            Phase::Sleeping { start } => {
                if event is Slept {
                    self.lemma_poll_on_sound(start as int, start as int);
                }
            },
        }
    }

    /// A runner that is sound when events begin to come, and bears them
    /// as they come, is sound after them: once no run is under way any
    /// more its status is `Completed`.
    pub proof fn lemma_borne_failures_complete(self, events: Seq<EventView>, verbose: bool)
        requires
            self.is_sound(),
            self.bears_all(events, verbose),
        ensures
            self.after(events, verbose).is_sound(),
            !self.after(events, verbose).is_active() ==> self.after(events, verbose).status
                == TaskStatus::completed(),
        decreases events.len(),
    {
        if events.len() > 0 {
            let before = events.drop_last();
            assert forall|i: int| 0 <= i < before.len() implies #[trigger] self.after(
                before.take(i),
                verbose,
            ).bears(before[i]) by {
                assert(before.take(i) =~= events.take(i));
            }
            self.lemma_borne_failures_complete(before, verbose);
            assert(self.after(events.take(events.len() - 1), verbose).bears(
                events[events.len() - 1],
            ));
            self.after(before, verbose).lemma_step_sound(events.last(), verbose);
        }
    }

    /// A run in which the only tasks to fail are tasks that may fail ends
    /// as completed, whatever the ceiling: after `run` and events that the
    /// run bears as they come, a runner on which no run is under way any
    /// more has the status `Completed`.
    pub proof fn lemma_tolerated_failures_complete(
        self,
        events: Seq<EventView>,
        verbose: bool,
    )
        requires
            self.wf(),
            !self.is_active(),
            self.is_unfailed(),
            self.run().runner.bears_all(events, verbose),
        ensures
            !self.run().runner.after(events, verbose).is_active() ==> self.run().runner.after(
                events,
                verbose,
            ).status == TaskStatus::completed(),
    {
        self.lemma_run_sound();
        self.run().runner.lemma_borne_failures_complete(events, verbose);
    }

    /// A sound runner bears every clean event.
    pub proof fn lemma_clean_is_borne(self, event: EventView)
        requires
            self.is_sound(),
            is_clean(event),
        ensures
            self.bears(event),
    {
    }

    /// A run in which every process is spawned and exits with code 0 ends
    /// as completed, whatever the ceiling and however many tasks there
    /// are: after `run` and any number of clean events, a runner on which
    /// no run is under way any more has the status `Completed`.
    pub proof fn lemma_clean_run_completes(self, events: Seq<EventView>, verbose: bool)
        requires
            self.wf(),
            !self.is_active(),
            self.is_unfailed(),
            forall|i: int| 0 <= i < events.len() ==> is_clean(#[trigger] events[i]),
        ensures
            !self.run().runner.after(events, verbose).is_active() ==> self.run().runner.after(
                events,
                verbose,
            ).status == TaskStatus::completed(),
    {
        self.lemma_run_sound();
        let begun = self.run().runner;
        begun.lemma_clean_events_are_borne(events, verbose);
        begun.lemma_borne_failures_complete(events, verbose);
    }

    proof fn lemma_clean_events_are_borne(self, events: Seq<EventView>, verbose: bool)
        requires
            self.is_sound(),
            forall|i: int| 0 <= i < events.len() ==> is_clean(#[trigger] events[i]),
        ensures
            self.bears_all(events, verbose),
        decreases events.len(),
    {
        if events.len() > 0 {
            let before = events.drop_last();
            self.lemma_clean_events_are_borne(before, verbose);
            assert forall|i: int| 0 <= i < events.len() implies #[trigger] self.after(
                events.take(i),
                verbose,
            ).bears(events[i]) by {
                if i < before.len() {
                    assert(before.take(i) =~= events.take(i));
                    assert(self.after(before.take(i), verbose).bears(before[i]));
                } else {
                    self.lemma_borne_failures_complete(before, verbose);
                    self.after(before, verbose).lemma_clean_is_borne(events[i]);
                }
            }
        }
    }
}

impl RunnerView {
    /// A run is under way, and a task of the window at work has failed
    /// that must not.
    pub open spec fn is_doomed(self) -> bool {
        self.is_active() && self.failed(
            self.window_start(),
            self.window_end(self.window_start()),
        )
    }

    /// `later` holds the same tasks in the same order, and those from
    /// pending place `from` on are in `later` as they are here.
    pub open spec fn keeps_beyond(self, later: RunnerView, from: int) -> bool {
        &&& later.tasks().len() == self.tasks().len()
        &&& forall|j: int|
            self.done.len() + from <= j < self.tasks().len() ==> #[trigger] later.tasks()[j]
                == self.tasks()[j]
    }

    /// `later` is this run further on in the same window, still doomed,
    /// or after it has ended as failed. The tasks behind the window are
    /// as they are here.
    pub open spec fn is_failing_to(self, later: RunnerView) -> bool {
        let start = self.window_start();
        &&& later.wf()
        &&& self.keeps_beyond(later, self.window_end(start))
        &&& if later.is_active() {
            &&& later.is_doomed()
            &&& later.window_start() == start
            &&& later.limit == self.limit
            &&& later.width == self.width
            &&& later.done == self.done
            &&& later.pending.len() == self.pending.len()
        } else {
            later.status == TaskStatus::error()
        }
    }

    proof fn lemma_spawn_on_doomed(self, start: int, from: int)
        requires
            self.in_run(),
            self.failed(start, self.window_end(start)),
            0 <= start < self.limit <= usize::MAX,
            start <= from <= self.window_end(start),
        ensures
            ({
                let turn = self.spawn_on(start, from);
                ||| turn.runner == self.finished(TaskStatus::error())
                ||| turn.runner.is_active() && turn.runner.window_start() == start && turn.runner
                    == (RunnerView { phase: turn.runner.phase, ..self })
            }),
    {
        let end = self.window_end(start);
        self.lemma_first_in(TaskStatus::waiting(), from, end);
        self.lemma_poll_on_doomed(start, start);
    }

    proof fn lemma_poll_on_doomed(self, start: int, from: int)
        requires
            self.in_run(),
            self.failed(start, self.window_end(start)),
            0 <= start < self.limit <= usize::MAX,
            start <= from <= self.window_end(start),
        ensures
            ({
                let turn = self.poll_on(start, from);
                ||| turn.runner == self.finished(TaskStatus::error())
                ||| turn.runner.is_active() && turn.runner.window_start() == start && turn.runner
                    == (RunnerView { phase: turn.runner.phase, ..self })
            }),
    {
        let end = self.window_end(start);
        self.lemma_first_in(TaskStatus::running(), from, end);
    }

    proof fn lemma_keeps_beyond_with_task(self, id: int, task: TaskView, from: int)
        requires
            0 <= id < from,
            id < self.pending.len(),
        ensures
            self.keeps_beyond(self.with_task(id, task), from),
    {
    }

    /// One move of a doomed run: it stays doomed in the same window, or
    /// ends as failed; no task behind the window is touched.
    pub proof fn lemma_step_doomed(self, event: EventView, verbose: bool)
        requires
            self.wf(),
            self.is_doomed(),
        ensures
            self.is_failing_to(self.step(event, verbose).runner),
    {
        self.lemma_step_wf(event, verbose);
        let ws = self.window_start();
        let we = self.window_end(ws);
        let bad = choose|j: int| ws <= j < we && (#[trigger] self.pending[j]).is_fatal();
        match self.phase {
            Phase::Idle => {},
            Phase::Spawning { start, task } => {
                if event is Spawned {
                    let next = self.with_task(task as int, self.pending[task as int].started());
                    assert(next.pending[bad].is_fatal());
                    next.lemma_spawn_on_doomed(start as int, task + 1);
                    self.lemma_keeps_beyond_with_task(
                        task as int,
                        self.pending[task as int].started(),
                        we,
                    );
                }
            },
            Phase::Polling { start, task } => {
                if let EventView::Observed(seen) = event {
                    let polled = self.pending[task as int];
                    if polled.given_up(seen) is None {
                        let next = self.with_task(task as int, polled.observed(seen));
                        assert(next.pending[bad].is_fatal());
                        next.lemma_poll_on_doomed(start as int, task + 1);
                        self.lemma_keeps_beyond_with_task(task as int, polled.observed(seen), we);
                    }
                }
            },
            Phase::Sleeping { start } => {
                if event is Slept {
                    self.lemma_poll_on_doomed(start as int, start as int);
                }
            },
        }
    }

    /// A doomed run ends as failed, and the windows behind the one at
    /// work are never begun: whatever events come, the run stays in its
    /// window until it is over, its status is then `Error`, and every task
    /// behind the window is as it was, so none of them was ever spawned.
    pub proof fn lemma_doomed_run_fails(self, events: Seq<EventView>, verbose: bool)
        requires
            self.wf(),
            self.is_doomed(),
        ensures
            self.is_failing_to(self.after(events, verbose)),
        decreases events.len(),
    {
        if events.len() > 0 {
            let before = events.drop_last();
            self.lemma_doomed_run_fails(before, verbose);
            let mid = self.after(before, verbose);
            if mid.is_active() {
                mid.lemma_step_doomed(events.last(), verbose);
            }
        }
    }

    /// A task that must not fail and is seen to exit with another code
    /// than 0 dooms its run: the run ends as failed, at the end of the
    /// round at the latest, whatever comes after, and no task behind the
    /// window of the failed task is ever spawned.
    pub proof fn lemma_fatal_exit_fails_run(
        self,
        seen: ObservationView,
        events: Seq<EventView>,
        verbose: bool,
    )
        requires
            self.wf(),
            self.phase is Polling,
            !self.pending[self.phase->Polling_task as int].non_fatal,
            seen matches ObservationView::Exited { code, .. } && code != Some(0i32),
        ensures
            ({
                let later = self.step(EventView::Observed(seen), verbose).runner.after(
                    events,
                    verbose,
                );
                &&& !later.is_active() ==> later.status == TaskStatus::error()
                &&& later.is_active() ==> later.window_start() == self.window_start()
                &&& self.keeps_beyond(later, self.window_end(self.window_start()))
            }),
    {
        let start = self.window_start();
        let task = self.phase->Polling_task as int;
        let we = self.window_end(start);
        let polled = self.pending[task];
        let next = self.with_task(task, polled.observed(seen));
        assert(next.pending[task].is_fatal());
        next.lemma_poll_on_doomed(start, task + 1);
        self.lemma_step_wf(EventView::Observed(seen), verbose);
        self.lemma_keeps_beyond_with_task(task, polled.observed(seen), we);
        let first = self.step(EventView::Observed(seen), verbose).runner;
        if first.is_active() {
            first.lemma_doomed_run_fails(events, verbose);
        } else {
            first.lemma_idle_stays(events, verbose);
        }
    }

    /// Without a run under way, events move nothing.
    pub proof fn lemma_idle_stays(self, events: Seq<EventView>, verbose: bool)
        requires
            !self.is_active(),
        ensures
            self.after(events, verbose) == self,
        decreases events.len(),
    {
        if events.len() > 0 {
            self.lemma_idle_stays(events.drop_last(), verbose);
        }
    }
}

/// A look that finds the process gone, with code 0 and nothing written.
pub open spec fn clean_exit() -> ObservationView {
    ObservationView::Exited { code: Some(0i32), stdout: Seq::empty(), stderr: Seq::empty() }
}

impl RunnerView {
    /// What a prompt host reports: every spawn works, and every process
    /// is gone, with code 0, when it is first looked at.
    pub open spec fn prompt_answer(self) -> EventView {
        match self.phase {
            Phase::Spawning { .. } => EventView::Spawned,
            Phase::Polling { .. } => EventView::Observed(clean_exit()),
            _ => EventView::Slept,
        }
    }

    /// The runner after so many moves on a prompt host.
    pub open spec fn after_prompt(self, moves: nat) -> RunnerView
        decreases moves,
    {
        if moves == 0 {
            self
        } else {
            let before = self.after_prompt((moves - 1) as nat);
            before.step(before.prompt_answer(), false).runner
        }
    }

    /// The moves that a run on a prompt host still takes: two for each
    /// task that waits, one for each that runs.
    pub open spec fn prompt_moves_left(self) -> int {
        match self.phase {
            Phase::Spawning { start, task } => 2 * (self.limit - task) + (task - start),
            Phase::Polling { start, task } => 2 * (self.limit - self.window_end(start as int)) + (
            self.window_end(start as int) - task),
            _ => 0,
        }
    }

    /// How a run of `count` fresh tasks on a prompt host stands: the tasks
    /// before the task at hand are completed or running, as the phase has
    /// it, and those behind it run or wait. `base` is the number of tasks
    /// that were consumed before the run.
    pub open spec fn is_prompt_run(self, base: nat, count: nat) -> bool {
        &&& self.wf()
        &&& self.tasks().len() == base + count
        &&& match self.phase {
            Phase::Idle => {
                &&& self.status == TaskStatus::completed()
                &&& self.pending.len() == 0
                &&& forall|j: int|
                    base <= j < base + count ==> (#[trigger] self.tasks()[j]).status
                        == TaskStatus::completed()
            },
            Phase::Spawning { start, task } => {
                &&& self.done.len() == base
                &&& self.limit == count
                &&& forall|j: int|
                    0 <= j < count ==> (#[trigger] self.pending[j]).status == if j < start {
                        TaskStatus::completed()
                    } else if j < task {
                        TaskStatus::running()
                    } else {
                        TaskStatus::waiting()
                    }
            },
            Phase::Polling { start, task } => {
                &&& self.done.len() == base
                &&& self.limit == count
                &&& forall|j: int|
                    0 <= j < count ==> (#[trigger] self.pending[j]).status == if j < task {
                        TaskStatus::completed()
                    } else if j < self.window_end(start as int) {
                        TaskStatus::running()
                    } else {
                        TaskStatus::waiting()
                    }
            },
            Phase::Sleeping { .. } => false,
        }
    }

    proof fn lemma_first_in_here(self, wanted: TaskStatus, from: int, end: int)
        requires
            from < end,
            self.pending[from].status == wanted,
        ensures
            self.first_in(wanted, from, end) == from,
    {
    }

    proof fn lemma_first_in_nowhere(self, wanted: TaskStatus, from: int, end: int)
        requires
            from >= end,
        ensures
            self.first_in(wanted, from, end) == end,
    {
    }

    /// One move of a run on a prompt host brings it one move nearer to
    /// its end.
    pub proof fn lemma_prompt_step(self, base: nat, count: nat)
        requires
            self.is_prompt_run(base, count),
            self.is_active(),
        ensures
            self.step(self.prompt_answer(), false).runner.is_prompt_run(base, count),
            self.step(self.prompt_answer(), false).runner.prompt_moves_left() + 1
                == self.prompt_moves_left(),
    {
        self.lemma_step_wf(self.prompt_answer(), false);
        let later = self.step(self.prompt_answer(), false).runner;
        match self.phase {
            Phase::Spawning { start, task } => {
                let s = start as int;
                let t = task as int;
                let end = self.window_end(s);
                let next = self.with_task(t, self.pending[t].started());
                if t + 1 < end {
                    next.lemma_first_in_here(TaskStatus::waiting(), t + 1, end);
                    assert forall|j: int| 0 <= j < count implies (#[trigger] later.pending[j]).status
                        == if j < s {
                        TaskStatus::completed()
                    } else if j < t + 1 {
                        TaskStatus::running()
                    } else {
                        TaskStatus::waiting()
                    } by {
                        let _ = self.pending[j];
                    }
                } else {
                    next.lemma_first_in_nowhere(TaskStatus::waiting(), t + 1, end);
                    assert(next.pending[s].status == TaskStatus::running());
                    next.lemma_first_in_here(TaskStatus::running(), s, end);
                    assert forall|j: int| 0 <= j < count implies (#[trigger] later.pending[j]).status
                        == if j < s {
                        TaskStatus::completed()
                    } else if j < end {
                        TaskStatus::running()
                    } else {
                        TaskStatus::waiting()
                    } by {
                        let _ = self.pending[j];
                    }
                }
            },
            Phase::Polling { start, task } => {
                let s = start as int;
                let t = task as int;
                let end = self.window_end(s);
                let polled = self.pending[t];
                let next = self.with_task(t, polled.observed(clean_exit()));
                if t + 1 < end {
                    next.lemma_first_in_here(TaskStatus::running(), t + 1, end);
                    assert forall|j: int| 0 <= j < count implies (#[trigger] later.pending[j]).status
                        == if j < t + 1 {
                        TaskStatus::completed()
                    } else if j < end {
                        TaskStatus::running()
                    } else {
                        TaskStatus::waiting()
                    } by {
                        let _ = self.pending[j];
                    }
                } else {
                    next.lemma_first_in_nowhere(TaskStatus::running(), t + 1, end);
                    assert(next.resolved(s, end));
                    if end < self.limit {
                        next.lemma_first_in_here(
                            TaskStatus::waiting(),
                            end,
                            next.window_end(end),
                        );
                        assert(later.phase == (Phase::Spawning {
                            start: end as usize,
                            task: end as usize,
                        }));
                        assert forall|j: int| 0 <= j < count implies (
                        #[trigger] later.pending[j]).status == if j < end {
                            TaskStatus::completed()
                        } else {
                            TaskStatus::waiting()
                        } by {
                            let _ = self.pending[j];
                        }
                    } else {
                        assert forall|j: int| base <= j < base + count implies (
                        #[trigger] later.tasks()[j]).status == TaskStatus::completed() by {
                            let _ = next.pending[j - base];
                        }
                    }
                }
            },
            _ => {},
        }
    }

    /// A run on a prompt host is over after as many moves as it has left,
    /// and it is completed.
    pub proof fn lemma_prompt_moves(self, base: nat, count: nat)
        requires
            self.is_prompt_run(base, count),
        ensures
            self.prompt_moves_left() >= 0,
            self.after_prompt(self.prompt_moves_left() as nat).is_prompt_run(base, count),
            !self.after_prompt(self.prompt_moves_left() as nat).is_active(),
        decreases self.prompt_moves_left(),
    {
        if self.is_active() {
            self.lemma_prompt_step(base, count);
            let next = self.step(self.prompt_answer(), false).runner;
            next.lemma_prompt_moves(base, count);
            self.lemma_after_prompt_shifts(next.prompt_moves_left() as nat);
        }
    }

    proof fn lemma_after_prompt_shifts(self, moves: nat)
        ensures
            self.after_prompt(moves + 1) == self.step(self.prompt_answer(), false).runner.after_prompt(
                moves,
            ),
        decreases moves,
    {
        let next = self.step(self.prompt_answer(), false).runner;
        let before = self.after_prompt(moves);
        assert(self.after_prompt(moves + 1) == before.step(before.prompt_answer(), false).runner);
        if moves > 0 {
            self.lemma_after_prompt_shifts((moves - 1) as nat);
            assert(before == next.after_prompt((moves - 1) as nat));
        }
    }

    /// A run gets through where nothing holds it up: a run of fresh tasks,
    /// on a host where every spawn works and every process is gone with
    /// code 0 at the first look, is over after two moves for each task,
    /// whatever the ceiling. It is then completed, and so is each task.
    pub proof fn lemma_prompt_run_completes(self)
        requires
            self.wf(),
            !self.is_active(),
            forall|j: int|
                0 <= j < self.pending.len() ==> (#[trigger] self.pending[j]).status
                    == TaskStatus::waiting(),
        ensures
            ({
                let over = self.run().runner.after_prompt(2 * self.pending.len());
                &&& !over.is_active()
                &&& over.status == TaskStatus::completed()
                &&& over.pending.len() == 0
                &&& over.done.len() == self.done.len() + self.pending.len()
                &&& forall|j: int|
                    self.done.len() <= j < over.done.len() ==> (#[trigger] over.done[j]).status
                        == TaskStatus::completed()
            }),
    {
        let base = self.done.len();
        let count = self.pending.len();
        let begun = self.run().runner;
        self.lemma_run_wf();
        if count > 0 {
            let fresh = RunnerView {
                status: TaskStatus::running(),
                limit: self.pending.len(),
                width: self.max_proc,
                ..self
            };
            fresh.lemma_first_in_here(TaskStatus::waiting(), 0, fresh.window_end(0));
        }
        begun.lemma_prompt_moves(base, count);
        let over = begun.after_prompt(2 * count);
        assert forall|j: int| base <= j < over.done.len() implies (#[trigger] over.done[j]).status
            == TaskStatus::completed() by {
            let _ = over.tasks()[j];
        }
    }
}

} // verus!
