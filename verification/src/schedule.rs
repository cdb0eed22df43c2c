//! The scheduling rules of a run, on plain values.
//!
//! A run takes the pending tasks in windows: the first `width` tasks, then
//! the next `width`, and so on. The tasks of a window are spawned one after
//! the other, then polled in rounds until the window is through; only then
//! is the next window begun. A task that failed and must not fail ends the
//! run at the end of the round in which it is found.
//!
//! The rules are written as a function from the state of a runner and an
//! event to the next state, the lines to show and the next thing to do.
//! The runner itself follows them; [`crate::laws`] says what holds of every
//! run that does.

use crate::error::FatalView;
use crate::slidingvec::{has_window, lemma_window_exists, window_end, window_start};
use crate::task::{spawn_failure, spawn_notice, ObservationView, TaskStatus, TaskView};
use vstd::prelude::*;

verus! {

/// The pause between two rounds of polling, in milliseconds.
pub const POLL_INTERVAL_MS: u64 = 20;

/// Where a runner stands. `start` is the place of the first task of the
/// window at work and `task` the place of the task that the caller was
/// asked to deal with, both counted from the first pending task.
#[derive(Clone, Copy, Debug, PartialEq, Eq, Structural)]
pub enum Phase {
    /// No run is under way.
    Idle,
    /// The caller is spawning `task`.
    Spawning { start: usize, task: usize },
    /// The caller is looking at the process of `task`.
    Polling { start: usize, task: usize },
    /// The caller is pausing before the next round.
    Sleeping { start: usize },
}

/// What the caller reports back, as plain values.
pub enum EventView {
    /// The process was spawned.
    Spawned,
    /// No process could be spawned.
    SpawnFailed { detail: Seq<char> },
    /// A look at the process showed this.
    Observed(ObservationView),
    /// The pause is over.
    Slept,
}

/// What the caller is to do next, as plain values.
pub enum ActionView {
    Spawn { task: usize },
    Poll { task: usize },
    Sleep { millis: u64 },
    Abort(FatalView),
    Finished,
}

/// A runner as plain values.
pub struct RunnerView {
    /// The consumed tasks, oldest first.
    pub done: Seq<TaskView>,
    /// The pending tasks, in the order in which they were added.
    pub pending: Seq<TaskView>,
    /// The state of the run as a whole.
    pub status: TaskStatus,
    /// The most processes that a run to come keeps going at a time.
    pub max_proc: nat,
    pub phase: Phase,
    /// The number of pending tasks that the run under way deals with:
    /// those that were there when it began.
    pub limit: nat,
    /// The window size of the run under way.
    pub width: nat,
}

/// The outcome of one move: the runner after it, the lines to show on
/// standard output, and what the caller is to do next.
pub struct Turn {
    pub runner: RunnerView,
    pub output: Seq<Seq<char>>,
    pub action: ActionView,
}

impl RunnerView {
    /// All tasks that the runner holds, consumed ones first.
    pub open spec fn tasks(self) -> Seq<TaskView> {
        self.done + self.pending
    }

    /// Whether a run is under way.
    pub open spec fn is_active(self) -> bool {
        self.phase !is Idle
    }

    /// The place of the first task of the window at work.
    pub open spec fn window_start(self) -> int {
        match self.phase {
            Phase::Idle => 0,
            Phase::Spawning { start, .. } => start as int,
            Phase::Polling { start, .. } => start as int,
            Phase::Sleeping { start } => start as int,
        }
    }

    /// The place behind the last task of the window that begins at `start`.
    pub open spec fn window_end(self, start: int) -> int {
        if start + self.width < self.limit {
            start + self.width
        } else {
            self.limit as int
        }
    }

    /// Every task, consumed or pending, is in order.
    pub open spec fn holds_tasks(self) -> bool {
        &&& forall|j: int| 0 <= j < self.done.len() ==> (#[trigger] self.done[j]).wf()
        &&& forall|j: int| 0 <= j < self.pending.len() ==> (#[trigger] self.pending[j]).wf()
    }

    /// No task from place `from` on and before `end` waits to be spawned.
    pub open spec fn none_waiting(self, from: int, end: int) -> bool {
        forall|j: int|
            from <= j < end ==> (#[trigger] self.pending[j]).status != TaskStatus::waiting()
    }

    /// The runner is in order.
    ///
    /// Its tasks are in order and can be counted, and it runs exactly
    /// while a run is under
    /// way. During a run the window at work is a batch of the tasks of
    /// the run, and every task before it is through. The task to spawn
    /// waits, and those before it in the window do not; the task to poll
    /// runs; and once the polling has begun no task of the window waits.
    pub open spec fn wf(self) -> bool {
        &&& self.max_proc >= 1
        &&& self.done.len() + self.pending.len() <= usize::MAX
        &&& self.holds_tasks()
        &&& self.is_active() <==> self.status == TaskStatus::running()
        &&& self.is_active() ==> {
            &&& self.width >= 1
            &&& self.limit <= self.pending.len()
            &&& self.window_start() % (self.width as int) == 0
            &&& self.resolved(0, self.window_start())
        }
        &&& match self.phase {
            Phase::Idle => true,
            Phase::Spawning { start, task } => {
                &&& start <= task < self.window_end(start as int)
                &&& self.pending[task as int].status == TaskStatus::waiting()
                &&& self.none_waiting(start as int, task as int)
            },
            Phase::Polling { start, task } => {
                &&& start <= task < self.window_end(start as int)
                &&& self.pending[task as int].status == TaskStatus::running()
                &&& self.none_waiting(start as int, self.window_end(start as int))
            },
            Phase::Sleeping { start } => {
                &&& start < self.limit
                &&& self.none_waiting(start as int, self.window_end(start as int))
            },
        }
    }

    /// The place of the first task from `from` on and before `end` that is
    /// in state `wanted`, or `end` if there is none.
    pub open spec fn first_in(self, wanted: TaskStatus, from: int, end: int) -> int
        decreases end - from,
    {
        if from >= end {
            end
        } else if self.pending[from].status == wanted {
            from
        } else {
            self.first_in(wanted, from + 1, end)
        }
    }

    /// Every task of the window is through: completed, or failed and
    /// allowed to.
    pub open spec fn resolved(self, start: int, end: int) -> bool {
        forall|j: int| start <= j < end ==> (#[trigger] self.pending[j]).is_settled()
    }

    /// A task of the window has failed and must not.
    pub open spec fn failed(self, start: int, end: int) -> bool {
        exists|j: int| start <= j < end && (#[trigger] self.pending[j]).is_fatal()
    }

    /// With the pending task at `id` replaced.
    pub open spec fn with_task(self, id: int, task: TaskView) -> RunnerView {
        RunnerView { pending: self.pending.update(id, task), ..self }
    }

    /// With the run over: every pending task is consumed, whether the run
    /// dealt with it or not.
    pub open spec fn finished(self, status: TaskStatus) -> RunnerView {
        RunnerView {
            done: self.done + self.pending,
            pending: Seq::empty(),
            status,
            phase: Phase::Idle,
            ..self
        }
    }

    /// The run ends with `status`.
    pub open spec fn finish(self, status: TaskStatus) -> Turn {
        Turn { runner: self.finished(status), output: Seq::empty(), action: ActionView::Finished }
    }

    /// The program has to give up. The run counts as failed.
    pub open spec fn abort(self, fatal: FatalView) -> Turn {
        Turn {
            runner: self.finished(TaskStatus::error()),
            output: Seq::empty(),
            action: ActionView::Abort(fatal),
        }
    }

    /// What the caller was last asked to do.
    pub open spec fn expects(self) -> ActionView {
        match self.phase {
            Phase::Idle => ActionView::Finished,
            Phase::Spawning { task, .. } => ActionView::Spawn { task },
            Phase::Polling { task, .. } => ActionView::Poll { task },
            Phase::Sleeping { .. } => ActionView::Sleep { millis: POLL_INTERVAL_MS },
        }
    }

    /// Nothing moves: the caller is asked again for what it was asked.
    pub open spec fn unmoved(self) -> Turn {
        Turn { runner: self, output: Seq::empty(), action: self.expects() }
    }

    /// Goes on spawning the window that begins at `start`, from place
    /// `from`: the next task that still waits is to be spawned, after its
    /// notice is shown. Where none waits the polling begins.
    pub open spec fn spawn_on(self, start: int, from: int) -> Turn
        decreases self.limit - start, 1int,
    {
        let end = self.window_end(start);
        let task = self.first_in(TaskStatus::waiting(), from, end);
        if 0 <= start <= task < end {
            Turn {
                runner: RunnerView {
                    phase: Phase::Spawning { start: start as usize, task: task as usize },
                    ..self
                },
                output: seq![spawn_notice(self.pending[task].command)],
                action: ActionView::Spawn { task: task as usize },
            }
        } else {
            self.poll_on(start, start)
        }
    }

    /// Goes on with a round of polling the window that begins at `start`,
    /// from place `from`: the next task that runs is to be looked at.
    /// Where none is left the round is over. If the window is through, the
    /// next one is begun, or the run ends as completed after the last. If a
    /// task has failed that must not, the run ends as failed. Else the
    /// caller pauses and another round follows.
    pub open spec fn poll_on(self, start: int, from: int) -> Turn
        decreases self.limit - start, 0int,
    {
        let end = self.window_end(start);
        let task = self.first_in(TaskStatus::running(), from, end);
        if 0 <= start <= task < end {
            Turn {
                runner: RunnerView {
                    phase: Phase::Polling { start: start as usize, task: task as usize },
                    ..self
                },
                output: Seq::empty(),
                action: ActionView::Poll { task: task as usize },
            }
        } else if self.resolved(start, end) {
            if start < end < self.limit {
                self.spawn_on(end, end)
            } else {
                self.finish(TaskStatus::completed())
            }
        } else if self.failed(start, end) {
            self.finish(TaskStatus::error())
        } else {
            Turn {
                runner: RunnerView { phase: Phase::Sleeping { start: start as usize }, ..self },
                output: Seq::empty(),
                action: ActionView::Sleep { millis: POLL_INTERVAL_MS },
            }
        }
    }

    /// Begins a run over the tasks that are pending now, in windows of
    /// `max_proc`. With nothing pending the run is over at once, and
    /// completed. While a run is under way nothing moves.
    pub open spec fn run(self) -> Turn {
        if self.is_active() {
            self.unmoved()
        } else {
            let begun = RunnerView {
                status: TaskStatus::running(),
                limit: self.pending.len(),
                width: self.max_proc,
                ..self
            };
            if begun.limit == 0 {
                begun.finish(TaskStatus::completed())
            } else {
                begun.spawn_on(0, 0)
            }
        }
    }

    /// Takes in what the caller reports. An event that does not answer
    /// what the caller was asked for moves nothing.
    ///
    /// A spawned process starts its task, and the spawning goes on. A
    /// failed spawn ends the program. A look at a process is handed to the
    /// task: what it shows is shown, and the round goes on, unless the
    /// look ends the program. The end of a pause begins the next round.
    pub open spec fn step(self, event: EventView, verbose: bool) -> Turn {
        match self.phase {
            Phase::Idle => self.unmoved(),
            Phase::Spawning { start, task } => match event {
                EventView::Spawned => self.with_task(
                    task as int,
                    self.pending[task as int].started(),
                ).spawn_on(start as int, task + 1),
                EventView::SpawnFailed { detail } => self.abort(spawn_failure(verbose, detail)),
                _ => self.unmoved(),
            },
            Phase::Polling { start, task } => match event {
                EventView::Observed(seen) => {
                    let polled = self.pending[task as int];
                    match polled.given_up(seen) {
                        Some(fatal) => self.abort(fatal),
                        None => {
                            let turn = self.with_task(task as int, polled.observed(seen)).poll_on(
                                start as int,
                                task + 1,
                            );
                            Turn { output: polled.shown(seen) + turn.output, ..turn }
                        },
                    }
                },
                _ => self.unmoved(),
            },
            Phase::Sleeping { start } => match event {
                EventView::Slept => self.poll_on(start as int, start as int),
                _ => self.unmoved(),
            },
        }
    }
}

/// The window behind one that begins at a multiple of the width begins at
/// the next multiple.
pub proof fn lemma_next_window_is_aligned(start: int, width: int)
    requires
        width > 0,
        0 <= start,
        start % width == 0,
    ensures
        (start + width) % width == 0,
{
    vstd::arithmetic::div_mod::lemma_mod_add_multiples_vanish(start, width);
}

impl RunnerView {
    /// The state of a runner in the middle of a move of a run.
    pub open spec fn in_run(self) -> bool {
        &&& self.max_proc >= 1
        &&& self.done.len() + self.pending.len() <= usize::MAX
        &&& self.holds_tasks()
        &&& self.width >= 1
        &&& self.limit <= self.pending.len()
        &&& self.status == TaskStatus::running()
    }

    /// A window of the run begins at `start`, and every task before it is
    /// through.
    pub open spec fn has_window_at(self, start: int) -> bool {
        &&& 0 <= start < self.limit
        &&& start % (self.width as int) == 0
        &&& self.resolved(0, start)
    }

    /// `first_in` finds the first task in the wanted state, if there is
    /// one before `end`.
    pub proof fn lemma_first_in(self, wanted: TaskStatus, from: int, end: int)
        requires
            from <= end,
        ensures
            from <= self.first_in(wanted, from, end) <= end,
            self.first_in(wanted, from, end) < end ==> self.pending[self.first_in(
                wanted,
                from,
                end,
            )].status == wanted,
            forall|j: int|
                from <= j < self.first_in(wanted, from, end) ==> (#[trigger] self.pending[j]).status
                    != wanted,
        decreases end - from,
    {
        if from < end && self.pending[from].status != wanted {
            self.lemma_first_in(wanted, from + 1, end);
        }
    }

    /// Spawning on keeps the runner in order.
    pub proof fn lemma_spawn_on_wf(self, start: int, from: int)
        requires
            self.in_run(),
            self.has_window_at(start),
            start <= from <= self.window_end(start),
            self.none_waiting(start, from),
        ensures
            self.spawn_on(start, from).runner.wf(),
        decreases self.limit - start, 1int,
    {
        let end = self.window_end(start);
        self.lemma_first_in(TaskStatus::waiting(), from, end);
        let task = self.first_in(TaskStatus::waiting(), from, end);
        if !(0 <= start <= task < end) {
            self.lemma_poll_on_wf(start, start);
        }
    }

    /// Polling on keeps the runner in order.
    pub proof fn lemma_poll_on_wf(self, start: int, from: int)
        requires
            self.in_run(),
            self.has_window_at(start),
            start <= from <= self.window_end(start),
            self.none_waiting(start, self.window_end(start)),
        ensures
            self.poll_on(start, from).runner.wf(),
        decreases self.limit - start, 0int,
    {
        let end = self.window_end(start);
        self.lemma_first_in(TaskStatus::running(), from, end);
        let task = self.first_in(TaskStatus::running(), from, end);
        if !(0 <= start <= task < end) && self.resolved(start, end) && start < end < self.limit {
            lemma_next_window_is_aligned(start, self.width as int);
            self.lemma_spawn_on_wf(end, end);
        }
    }

    proof fn lemma_spawn_on_asks(self, start: int, from: int)
        requires
            0 <= start < self.limit <= usize::MAX,
            start <= from,
        ensures
            self.spawn_on(start, from).action == self.spawn_on(start, from).runner.expects(),
        decreases self.limit - start, 1int,
    {
        let end = self.window_end(start);
        let task = self.first_in(TaskStatus::waiting(), from, end);
        if !(0 <= start <= task < end) {
            self.lemma_poll_on_asks(start, start);
        }
    }

    proof fn lemma_poll_on_asks(self, start: int, from: int)
        requires
            0 <= start < self.limit <= usize::MAX,
            start <= from,
        ensures
            self.poll_on(start, from).action == self.poll_on(start, from).runner.expects(),
        decreases self.limit - start, 0int,
    {
        let end = self.window_end(start);
        let task = self.first_in(TaskStatus::running(), from, end);
        if !(0 <= start <= task < end) && self.resolved(start, end) && start < end < self.limit {
            self.lemma_spawn_on_asks(end, end);
        }
    }

    /// The runner asks for what it then waits for: but for an abort, the
    /// action of a move is the one that the runner expects to be answered.
    /// So a task that is to be spawned waits and has no process yet, and a
    /// task that is to be polled runs and has one.
    pub proof fn lemma_asks_what_it_expects(self, event: EventView, verbose: bool)
        requires
            self.wf(),
        ensures
            self.run().action == self.run().runner.expects(),
            self.step(event, verbose).action is Abort || self.step(event, verbose).action
                == self.step(event, verbose).runner.expects(),
            self.step(event, verbose).action matches ActionView::Spawn { task } ==> {
                let asked = self.step(event, verbose).runner.pending[task as int];
                asked.status == TaskStatus::waiting() && !asked.has_process && asked.command.len()
                    > 0
            },
            self.step(event, verbose).action matches ActionView::Poll { task } ==> self.step(
                event,
                verbose,
            ).runner.pending[task as int].has_process,
    {
        self.lemma_step_wf(event, verbose);
        if !self.is_active() {
            let begun = RunnerView {
                status: TaskStatus::running(),
                limit: self.pending.len(),
                width: self.max_proc,
                ..self
            };
            if begun.limit > 0 {
                begun.lemma_spawn_on_asks(0, 0);
            }
        }
        match self.phase {
            Phase::Idle => {},
            Phase::Spawning { start, task } => {
                self.with_task(task as int, self.pending[task as int].started()).lemma_spawn_on_asks(
                    start as int,
                    task + 1,
                );
            },
            Phase::Polling { start, task } => {
                if let EventView::Observed(seen) = event {
                    self.with_task(
                        task as int,
                        self.pending[task as int].observed(seen),
                    ).lemma_poll_on_asks(start as int, task + 1);
                }
            },
            Phase::Sleeping { start } => {
                self.lemma_poll_on_asks(start as int, start as int);
            },
        }
    }

    /// The windows of a run are the batches of its tasks by place: the
    /// window at work is window `k` of the tasks of the run for some `k`,
    /// from place `k * width` up to place `(k + 1) * width`, or to the
    /// last task of the run.
    pub proof fn lemma_window_is_batch(self)
        requires
            self.wf(),
            self.is_active(),
        ensures
            ({
                let k = self.window_start() / (self.width as int);
                &&& has_window(self.limit, self.width, k)
                &&& self.window_start() == window_start(self.width, k)
                &&& self.window_end(self.window_start()) == window_end(self.limit, self.width, k)
            }),
    {
        let start = self.window_start();
        let width = self.width as int;
        let k = start / width;
        vstd::arithmetic::div_mod::lemma_fundamental_div_mod(start, width);
        assert(width * k == k * width) by (nonlinear_arith);
        assert(0 <= k) by (nonlinear_arith)
            requires
                0 <= start,
                0 < width,
                k == start / width,
        ;
        lemma_window_exists(self.limit, self.width, k);
        assert((k + 1) * width == k * width + width) by (nonlinear_arith);
    }

    /// Beginning a run keeps the runner in order.
    pub proof fn lemma_run_wf(self)
        requires
            self.wf(),
        ensures
            self.run().runner.wf(),
    {
        if !self.is_active() {
            let begun = RunnerView {
                status: TaskStatus::running(),
                limit: self.pending.len(),
                width: self.max_proc,
                ..self
            };
            if begun.limit > 0 {
                begun.lemma_spawn_on_wf(0, 0);
            }
        }
    }

    /// Every move keeps the runner in order.
    pub proof fn lemma_step_wf(self, event: EventView, verbose: bool)
        requires
            self.wf(),
        ensures
            self.step(event, verbose).runner.wf(),
    {
        match self.phase {
            Phase::Idle => {},
            Phase::Spawning { start, task } => {
                if event is Spawned {
                    self.with_task(
                        task as int,
                        self.pending[task as int].started(),
                    ).lemma_spawn_on_wf(start as int, task + 1);
                }
            },
            Phase::Polling { start, task } => {
                if let EventView::Observed(seen) = event {
                    let polled = self.pending[task as int];
                    if polled.given_up(seen) is None {
                        self.with_task(task as int, polled.observed(seen)).lemma_poll_on_wf(
                            start as int,
                            task + 1,
                        );
                    }
                }
            },
            Phase::Sleeping { start } => {
                if event is Slept {
                    self.lemma_poll_on_wf(start as int, start as int);
                }
            },
        }
    }
}

} // verus!
