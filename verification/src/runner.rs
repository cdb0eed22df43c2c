//! The runner: a buffer of tasks and the windowed run over them.
//!
//! The runner decides; its caller acts. [`Runner::run`] begins a run and
//! says what to do first. The caller does it, reports what came of it to
//! [`Runner::step`] and is told what to do next, until the action is
//! [`Action::Finished`] or [`Action::Abort`].

use crate::error::{Fatal, LiebeError, Reporter};
use crate::schedule::{ActionView, EventView, Phase, RunnerView, Turn, POLL_INTERVAL_MS};
use crate::slidingvec::SlidingVec;
use crate::stage::BuildStage;
use crate::task::{fresh_task, Observation, Poll};
use vstd::prelude::*;

pub use crate::task::{CommandStr, Task, TaskStatus};

verus! {

/// What the caller reports back to the runner.
#[derive(Debug)]
pub enum Event<P> {
    /// The process of the task was spawned; here is its handle.
    Spawned(P),
    /// No process could be spawned; `detail` says why.
    SpawnFailed { detail: String },
    /// A look at the process of the task showed this.
    Observed(Observation),
    /// The pause is over.
    Slept,
}

impl<P> View for Event<P> {
    type V = EventView;

    open spec fn view(&self) -> EventView {
        match self {
            Event::Spawned(_) => EventView::Spawned,
            Event::SpawnFailed { detail } => EventView::SpawnFailed { detail: detail@ },
            Event::Observed(seen) => EventView::Observed(seen@),
            Event::Slept => EventView::Slept,
        }
    }
}

/// What the caller is to do next. A task is named by its place among the
/// pending tasks.
#[derive(Debug, PartialEq, Eq)]
pub enum Action {
    /// Spawn the command of `task`, with its output streams captured, and
    /// report [`Event::Spawned`] or [`Event::SpawnFailed`].
    Spawn { task: usize },
    /// Look, without blocking, whether the process of `task` has exited,
    /// and report [`Event::Observed`].
    Poll { task: usize },
    /// Pause for so many milliseconds and report [`Event::Slept`].
    Sleep { millis: u64 },
    /// Show the message on standard error and end the program with the code.
    Abort(Fatal),
    /// The run is over: the status of the runner is final.
    Finished,
}

impl View for Action {
    type V = ActionView;

    open spec fn view(&self) -> ActionView {
        match self {
            Action::Spawn { task } => ActionView::Spawn { task: *task },
            Action::Poll { task } => ActionView::Poll { task: *task },
            Action::Sleep { millis } => ActionView::Sleep { millis: *millis },
            Action::Abort(fatal) => ActionView::Abort(fatal@),
            Action::Finished => ActionView::Finished,
        }
    }
}

/// The answer of the runner to one move.
#[derive(Debug, PartialEq, Eq)]
pub struct Step {
    /// The lines to show on standard output, in this order, before
    /// anything else is done.
    pub output: Vec<String>,
    /// What to do then.
    pub action: Action,
}

impl Step {
    /// Whether the step says what the rules give.
    pub open spec fn matches_turn(self, turn: Turn) -> bool {
        self.output.deep_view() =~= turn.output && self.action@ == turn.action
    }
}

/// Tasks and a ceiling on how many of their processes run at a time. `P`
/// is the type of a process handle.
#[derive(Debug)]
pub struct Runner<P> {
    tasks: SlidingVec<Task<P>>,
    status: TaskStatus,
    max_proc: usize,
    phase: Phase,
    limit: usize,
    width: usize,
}

impl<P> View for Runner<P> {
    type V = RunnerView;

    closed spec fn view(&self) -> RunnerView {
        RunnerView {
            done: self.tasks@.left.map_values(|t: Task<P>| t@),
            pending: self.tasks@.right.map_values(|t: Task<P>| t@),
            status: self.status,
            max_proc: self.max_proc as nat,
            phase: self.phase,
            limit: self.limit as nat,
            width: self.width as nat,
        }
    }
}

impl<P> Runner<P> {
    /// The buffer of tasks is in order.
    pub closed spec fn holds(&self) -> bool {
        self.tasks.wf()
    }

    /// The runner is in order.
    pub open spec fn wf(&self) -> bool {
        self.holds() && self@.wf()
    }

    /// A runner without tasks. `parallelism` is how many processes the
    /// host can keep going at a time, if that is known: it becomes the
    /// ceiling, which is 1 where it is unknown or given as 0.
    pub fn new(parallelism: Option<usize>) -> (runner: Self)
        ensures
            runner.wf(),
            runner@ == (RunnerView {
                done: Seq::empty(),
                pending: Seq::empty(),
                status: TaskStatus::waiting(),
                max_proc: match parallelism {
                    Some(n) if n >= 1 => n as nat,
                    _ => 1,
                },
                phase: Phase::Idle,
                limit: 0,
                width: 0,
            }),
    {
        let max_proc: usize = match parallelism {
            Some(n) => if n >= 1 {
                n
            } else {
                1
            },
            None => 1,
        };
        let runner = Runner {
            tasks: SlidingVec::new(),
            status: TaskStatus::waiting(),
            max_proc,
            phase: Phase::Idle,
            limit: 0,
            width: 0,
        };
        assert(runner@.pending =~= Seq::empty());
        runner
    }

    /// Adds a task behind the pending ones. A run that is under way does
    /// not take it up, and consumes it with the others when it ends.
    pub fn add_task(&mut self, task: Task<P>)
        requires
            old(self).wf(),
            task@.wf(),
        ensures
            final(self).wf(),
            final(self)@ == (RunnerView { pending: old(self)@.pending.push(task@), ..old(self)@ }),
    {
        self.tasks.push(task);
        proof {
            self.tasks.lemma_fits();
            assert(self@.pending =~= old(self)@.pending.push(task@));
        }
    }

    /// Adds a task for each command of `stage`, in the order of the
    /// stage. A stage that holds an empty command is refused whole.
    pub fn add_stage(&mut self, stage: BuildStage) -> (added: bool)
        requires
            old(self).wf(),
        ensures
            final(self).wf(),
            added == stage@.wf(),
            added ==> final(self)@ == (RunnerView {
                pending: old(self)@.pending + stage@.commands.map_values(
                    |c: Seq<Seq<char>>| fresh_task(c),
                ),
                ..old(self)@
            }),
            !added ==> final(self)@ == old(self)@,
    {
        if !stage.is_valid() {
            return false;
        }
        let mut commands = stage.commands;
        let ghost wanted = stage@.commands;
        let mut i: usize = 0;
        while i < commands.len()
            invariant
                self.wf(),
                i <= commands.len() == wanted.len(),
                forall|j: int| 0 <= j < wanted.len() ==> (#[trigger] wanted[j]).len() > 0,
                forall|j: int| i <= j < commands.len() ==> commands[j].deep_view() == wanted[j],
                self@ == (RunnerView {
                    pending: old(self)@.pending + wanted.take(i as int).map_values(
                        |c: Seq<Seq<char>>| fresh_task(c),
                    ),
                    ..old(self)@
                }),
            decreases commands.len() - i,
        {
            let mut command: CommandStr = Vec::new();
            core::mem::swap(&mut commands[i], &mut command);
            self.add_task(Task::new(command));
            proof {
                assert(wanted.take(i + 1).map_values(|c: Seq<Seq<char>>| fresh_task(c))
                    =~= wanted.take(i as int).map_values(|c: Seq<Seq<char>>| fresh_task(c)).push(
                    fresh_task(wanted[i as int]),
                ));
                assert(self@.pending =~= old(self)@.pending + wanted.take(i + 1).map_values(
                    |c: Seq<Seq<char>>| fresh_task(c),
                ));
            }
            i += 1;
        }
        assert(wanted.take(wanted.len() as int) =~= wanted);
        true
    }

    /// The state of the run as a whole: `Waiting` before the first run,
    /// `Running` during a run, `Completed` or `Error` after it.
    pub fn get_status(&self) -> (status: TaskStatus)
        ensures
            status == self@.status,
    {
        self.status
    }

    /// The ceiling on processes at work at a time.
    pub fn max_proc(&self) -> (n: usize)
        ensures
            n == self@.max_proc,
    {
        self.max_proc
    }

    /// Sets the ceiling for the runs to come. A run under way keeps the
    /// window size that it began with.
    pub fn set_max_proc(&mut self, n: usize)
        requires
            old(self).wf(),
            n >= 1,
        ensures
            final(self).wf(),
            final(self)@ == (RunnerView { max_proc: n as nat, ..old(self)@ }),
    {
        self.max_proc = n;
    }

    /// The number of pending tasks.
    pub fn pending_len(&self) -> (n: usize)
        requires
            self.wf(),
        ensures
            n == self@.pending.len(),
    {
        self.tasks.right_len()
    }

    /// The number of consumed tasks.
    pub fn done_len(&self) -> (n: usize)
        requires
            self.wf(),
        ensures
            n == self@.done.len(),
    {
        self.tasks.left_len()
    }

    /// The pending task at place `id`.
    pub fn pending_task(&self, id: usize) -> (task: Option<&Task<P>>)
        requires
            self.wf(),
        ensures
            id >= self@.pending.len() ==> task is None,
            id < self@.pending.len() ==> (task matches Some(t) && t@ == self@.pending[id as int]),
    {
        self.tasks.get_right(id)
    }

    /// The consumed task at place `id`, for a look at how it ended.
    pub fn done_task(&self, id: usize) -> (task: Option<&Task<P>>)
        requires
            self.wf(),
        ensures
            id >= self@.done.len() ==> task is None,
            id < self@.done.len() ==> (task matches Some(t) && t@ == self@.done[id as int]),
    {
        self.tasks.get_left(id)
    }

    /// The handle of the process of the pending task at place `id`, for
    /// the caller to look at the process. The runner stays as it is.
    pub fn process_mut(&mut self, id: usize) -> (handle: Option<&mut P>)
        requires
            old(self).wf(),
        ensures
            final(self).wf(),
            final(self)@ == old(self)@,
            handle is Some <==> id < old(self)@.pending.len() && old(self)@.pending[id as int].has_process,
    {
        match self.tasks.get_mut_right(id) {
            Some(task) => {
                let ghost last = *final(task);
                let handle = task.process_mut();
                proof {
                    assert(old(self).tasks@.right.update(id as int, last).map_values(
                        |t: Task<P>| t@,
                    ) =~= old(self)@.pending);
                }
                handle
            },
            None => None,
        }
    }

    /// Begins a run over the tasks that are pending now. The caller does
    /// what the step says and reports to [`Runner::step`].
    pub fn run(&mut self) -> (step: Step)
        requires
            old(self).wf(),
        ensures
            final(self).wf(),
            final(self)@ == old(self)@.run().runner,
            step.matches_turn(old(self)@.run()),
    {
        let mut output: Vec<String> = Vec::new();
        proof {
            old(self)@.lemma_run_wf();
        }
        let action = match self.phase {
            Phase::Idle => {
                let pending = self.tasks.right_len();
                self.status = TaskStatus::running();
                self.limit = pending;
                self.width = self.max_proc;
                if pending == 0 {
                    self.finish(TaskStatus::completed());
                    Action::Finished
                } else {
                    self.advance(0, 0, true, &mut output)
                }
            },
            _ => self.expects(),
        };
        Step { output, action }
    }

    /// Takes in what came of the last action and says what to do next.
    /// `reporter` decides how much the message of a failed spawn says.
    pub fn step(&mut self, event: Event<P>, reporter: &Reporter) -> (step: Step)
        requires
            old(self).wf(),
        ensures
            final(self).wf(),
            final(self)@ == old(self)@.step(event@, reporter.verbose()).runner,
            step.matches_turn(old(self)@.step(event@, reporter.verbose())),
    {
        let mut output: Vec<String> = Vec::new();
        proof {
            old(self)@.lemma_step_wf(event@, reporter.verbose());
        }
        let action = match self.phase {
            Phase::Idle => Action::Finished,
            Phase::Spawning { start, task } => {
                let spawned: Result<P, String> = match event {
                    Event::Spawned(handle) => Ok(handle),
                    Event::SpawnFailed { detail } => Err(detail),
                    _ => {
                        return Step { output, action: self.expects() };
                    },
                };
                let taken = self.tasks.get_mut_right(task).unwrap().run(spawned, reporter);
                assert(self@.pending =~= old(self)@.pending.update(
                    task as int,
                    self@.pending[task as int],
                ));
                match taken {
                    Ok(()) => self.advance(start, task + 1, true, &mut output),
                    Err(fatal) => {
                        assert(self@.pending =~= old(self)@.pending);
                        self.finish(TaskStatus::error());
                        Action::Abort(fatal)
                    },
                }
            },
            Phase::Polling { start, task } => {
                let seen = match event {
                    Event::Observed(seen) => seen,
                    _ => {
                        return Step { output, action: self.expects() };
                    },
                };
                let poll = self.tasks.get_mut_right(task).unwrap().get_status(seen);
                assert(self@.pending =~= old(self)@.pending.update(
                    task as int,
                    self@.pending[task as int],
                ));
                let Poll { status: _, output: shown, fatal } = poll;
                match fatal {
                    Some(fatal) => {
                        assert(self@.pending =~= old(self)@.pending);
                        self.finish(TaskStatus::error());
                        Action::Abort(fatal)
                    },
                    None => {
                        output = shown;
                        self.advance(start, task + 1, false, &mut output)
                    },
                }
            },
            Phase::Sleeping { start } => match event {
                Event::Slept => self.advance(start, start, false, &mut output),
                _ => self.expects(),
            },
        };
        Step { output, action }
    }

    /// What the caller was last asked to do.
    fn expects(&self) -> (action: Action)
        ensures
            action@ == self@.expects(),
    {
        match self.phase {
            Phase::Idle => Action::Finished,
            Phase::Spawning { start: _, task } => Action::Spawn { task },
            Phase::Polling { start: _, task } => Action::Poll { task },
            Phase::Sleeping { start: _ } => Action::Sleep { millis: POLL_INTERVAL_MS },
        }
    }

    /// Ends the run: the status is set, and every pending task is consumed.
    fn finish(&mut self, status: TaskStatus)
        requires
            old(self).holds(),
        ensures
            final(self).holds(),
            final(self)@ == old(self)@.finished(status),
    {
        self.status = status;
        self.phase = Phase::Idle;
        let pending = self.tasks.right_len();
        self.tasks.pop_n(pending);
        assert(self@.done =~= old(self)@.done + old(self)@.pending);
        assert(self@.pending =~= Seq::empty());
    }

    /// The place behind the last task of the window that begins at `start`.
    fn window_end(&self, start: usize) -> (end: usize)
        requires
            start <= self.limit,
        ensures
            end == self@.window_end(start as int),
    {
        if self.limit - start > self.width {
            start + self.width
        } else {
            self.limit
        }
    }

    /// The place of the first task from `from` on and before `end` that is
    /// in state `wanted`, or `end`.
    fn first_in(&self, wanted: TaskStatus, from: usize, end: usize) -> (found: usize)
        requires
            self.holds(),
            from <= end <= self@.pending.len(),
        ensures
            found == self@.first_in(wanted, from as int, end as int),
    {
        let mut at: usize = from;
        while at < end
            invariant
                self.holds(),
                from <= at <= end <= self@.pending.len(),
                self@.first_in(wanted, from as int, end as int) == self@.first_in(
                    wanted,
                    at as int,
                    end as int,
                ),
            decreases end - at,
        {
            if self.tasks.get_right(at).unwrap().status() == wanted {
                return at;
            }
            at += 1;
        }
        end
    }

    /// Whether every task from `start` on and before `end` is through.
    fn resolved(&self, start: usize, end: usize) -> (all: bool)
        requires
            self.holds(),
            start <= end <= self@.pending.len(),
        ensures
            all == self@.resolved(start as int, end as int),
    {
        let mut at: usize = start;
        while at < end
            invariant
                self.holds(),
                start <= at <= end <= self@.pending.len(),
                self@.resolved(start as int, at as int),
            decreases end - at,
        {
            let task = self.tasks.get_right(at).unwrap();
            let status = task.status();
            let settled = status == TaskStatus::completed() || (status == TaskStatus::error()
                && task.is_non_fatal());
            if !settled {
                assert(!self@.pending[at as int].is_settled());
                return false;
            }
            at += 1;
        }
        true
    }

    /// Whether a task from `start` on and before `end` has failed and
    /// must not.
    fn failed(&self, start: usize, end: usize) -> (any: bool)
        requires
            self.holds(),
            start <= end <= self@.pending.len(),
        ensures
            any == self@.failed(start as int, end as int),
    {
        let mut at: usize = start;
        while at < end
            invariant
                self.holds(),
                start <= at <= end <= self@.pending.len(),
                !self@.failed(start as int, at as int),
            decreases end - at,
        {
            let task = self.tasks.get_right(at).unwrap();
            if task.status() == TaskStatus::error() && !task.is_non_fatal() {
                assert(self@.pending[at as int].is_fatal());
                return true;
            }
            at += 1;
        }
        false
    }

    /// Goes on with the run from the window that begins at `start`: with
    /// spawning from place `from` if `spawning`, else with polling from
    /// there. Windows that hold nothing to do are passed over. The notice
    /// of a task to spawn is added to `output`.
    fn advance(
        &mut self,
        first: usize,
        first_from: usize,
        first_spawning: bool,
        output: &mut Vec<String>,
    ) -> (action: Action)
        requires
            old(self).holds(),
            old(self)@.in_run(),
            first < old(self)@.limit,
            first <= first_from <= old(self)@.window_end(first as int),
        ensures
            final(self).holds(),
            ({
                let turn = if first_spawning {
                    old(self)@.spawn_on(first as int, first_from as int)
                } else {
                    old(self)@.poll_on(first as int, first_from as int)
                };
                &&& final(self)@ == turn.runner
                &&& final(output).deep_view() =~= old(output).deep_view() + turn.output
                &&& action@ == turn.action
            }),
    {
        let ghost goal = if first_spawning {
            self@.spawn_on(first as int, first_from as int)
        } else {
            self@.poll_on(first as int, first_from as int)
        };
        let mut start = first;
        let mut from = first_from;
        let mut spawning = first_spawning;
        loop
            invariant
                self.holds(),
                *self == *old(self),
                *output == *old(output),
                self@.in_run(),
                start < self@.limit,
                start <= from <= self@.window_end(start as int),
                goal == if first_spawning {
                    old(self)@.spawn_on(first as int, first_from as int)
                } else {
                    old(self)@.poll_on(first as int, first_from as int)
                },
                goal == if spawning {
                    self@.spawn_on(start as int, from as int)
                } else {
                    self@.poll_on(start as int, from as int)
                },
            decreases self@.limit - start, if spawning { 1int } else { 0int },
        {
            let end = self.window_end(start);
            if spawning {
                let task = self.first_in(TaskStatus::waiting(), from, end);
                proof {
                    self@.lemma_first_in(TaskStatus::waiting(), from as int, end as int);
                }
                if task < end {
                    let notice = self.tasks.get_right(task).unwrap().spawn_notice();
                    output.push(notice);
                    self.phase = Phase::Spawning { start, task };
                    return Action::Spawn { task };
                }
                spawning = false;
                from = start;
            } else {
                let task = self.first_in(TaskStatus::running(), from, end);
                proof {
                    self@.lemma_first_in(TaskStatus::running(), from as int, end as int);
                }
                if task < end {
                    self.phase = Phase::Polling { start, task };
                    return Action::Poll { task };
                }
                if self.resolved(start, end) {
                    if end < self.limit {
                        start = end;
                        from = end;
                        spawning = true;
                    } else {
                            self.finish(TaskStatus::completed());
                        return Action::Finished;
                    }
                } else if self.failed(start, end) {
                    self.finish(TaskStatus::error());
                    return Action::Finished;
                } else {
                    self.phase = Phase::Sleeping { start };
                    return Action::Sleep { millis: POLL_INTERVAL_MS };
                }
            }
        }
    }
}

/// The handle of a run that goes on in the background. `H` is what the
/// background work is joined through. The handle gives it out once: who
/// has it joins the run and gets the finished runner.
#[derive(Debug)]
pub struct RunnerHandle<H>(Option<H>);

impl<H> View for RunnerHandle<H> {
    type V = Option<H>;

    closed spec fn view(&self) -> Option<H> {
        self.0
    }
}

impl<H> RunnerHandle<H> {
    /// A handle for background work that is joined through `joiner`.
    pub fn new(joiner: H) -> (handle: Self)
        ensures
            handle@ == Some(joiner),
    {
        RunnerHandle(Some(joiner))
    }

    /// Whether the run has been waited for.
    pub fn is_joined(&self) -> (joined: bool)
        ensures
            joined == (self@ is None),
    {
        self.0.is_none()
    }

    /// Gives out what the run is joined through, for the caller to block
    /// on it. This works once: a second wait is an error of its own.
    pub fn wait(&mut self) -> (r: Result<H, LiebeError>)
        ensures
            final(self)@ is None,
            match old(self)@ {
                Some(joiner) => r == Ok::<H, LiebeError>(joiner),
                None => r == Err::<H, LiebeError>(LiebeError::ThreadAlreadyJoined),
            },
    {
        match self.0.take() {
            Some(joiner) => Ok(joiner),
            None => Err(LiebeError::ThreadAlreadyJoined),
        }
    }
}

} // verus!
