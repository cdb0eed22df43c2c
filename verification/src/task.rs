//! One external command and its life cycle.
//!
//! A task never touches the operating system. Its caller spawns the
//! process and looks after it, and tells the task what it saw; the task
//! keeps the state, decides what that means and words what is shown.

use crate::error::{Fatal, FatalView, LiebeError, Reporter, FAILURE_CODE};
use crate::text::{decimal, decimal_string, join, joined};
use vstd::prelude::*;
use vstd::string::*;

verus! {

/// A command line: the program first, then its arguments.
pub type CommandStr = Vec<String>;

/// The four states in the life of a task.
#[derive(Clone, Copy, Debug, PartialEq, Eq, Structural)]
pub enum State {
    Waiting,
    Running,
    Completed,
    Error,
}

/// The state of a task, or of a whole run.
#[derive(Clone, Copy, Debug, PartialEq, Eq, Structural)]
pub struct TaskStatus(pub State);

impl TaskStatus {
    /// The name of the state, in capitals.
    pub open spec fn label(self) -> Seq<char> {
        match self.0 {
            State::Completed => "COMPLETED"@,
            State::Error => "ERROR"@,
            State::Running => "RUNNING"@,
            State::Waiting => "WAITING"@,
        }
    }

    /// Whether the state is one that is never left.
    pub open spec fn is_terminal(self) -> bool {
        self.0 is Completed || self.0 is Error
    }

    pub fn get_status(&self) -> (name: &'static str)
        ensures
            name@ == self.label(),
    {
        match self.0 {
            State::Completed => "COMPLETED",
            State::Error => "ERROR",
            State::Running => "RUNNING",
            State::Waiting => "WAITING",
        }
    }

    #[verifier::allow_in_spec]
    pub fn running() -> Self
        returns
            TaskStatus(State::Running),
    {
        TaskStatus(State::Running)
    }

    #[verifier::allow_in_spec]
    pub fn completed() -> Self
        returns
            TaskStatus(State::Completed),
    {
        TaskStatus(State::Completed)
    }

    #[verifier::allow_in_spec]
    pub fn error() -> Self
        returns
            TaskStatus(State::Error),
    {
        TaskStatus(State::Error)
    }

    #[verifier::allow_in_spec]
    pub fn waiting() -> Self
        returns
            TaskStatus(State::Waiting),
    {
        TaskStatus(State::Waiting)
    }
}

/// What a look at a started process showed, without blocking.
#[derive(Debug, PartialEq, Eq)]
pub enum Observation {
    /// The process is gone. `code` is its exit code, if it had one, and the
    /// two lists hold the lines it wrote, read to the end.
    Exited { code: Option<i32>, stdout: Vec<String>, stderr: Vec<String> },
    /// The process is still at work.
    StillRunning,
    /// The look itself failed; `detail` says how.
    Failed { detail: String },
}

/// An [`Observation`] as plain values.
pub enum ObservationView {
    Exited { code: Option<i32>, stdout: Seq<Seq<char>>, stderr: Seq<Seq<char>> },
    StillRunning,
    Failed { detail: Seq<char> },
}

impl View for Observation {
    type V = ObservationView;

    open spec fn view(&self) -> ObservationView {
        match self {
            Observation::Exited { code, stdout, stderr } => ObservationView::Exited {
                code: *code,
                stdout: stdout.deep_view(),
                stderr: stderr.deep_view(),
            },
            Observation::StillRunning => ObservationView::StillRunning,
            Observation::Failed { detail } => ObservationView::Failed { detail: detail@ },
        }
    }
}

/// What a poll of a task gave.
#[derive(Debug, PartialEq, Eq)]
pub struct Poll {
    /// The state of the task after the poll.
    pub status: TaskStatus,
    /// The lines to show on standard output, in this order.
    pub output: Vec<String>,
    /// Set where the program has to give up.
    pub fatal: Option<Fatal>,
}

/// A [`Poll`] as plain values.
#[verifier::ext_equal]
pub struct PollView {
    pub status: TaskStatus,
    pub output: Seq<Seq<char>>,
    pub fatal: Option<FatalView>,
}

impl View for Poll {
    type V = PollView;

    open spec fn view(&self) -> PollView {
        PollView {
            status: self.status,
            output: self.output.deep_view(),
            fatal: match self.fatal {
                Some(f) => Some(f@),
                None => None,
            },
        }
    }
}

/// How a wait for a task goes on after one poll.
#[derive(Debug, PartialEq, Eq)]
pub enum Wait {
    /// The task is not through: look again.
    Again,
    /// The wait is over.
    Done,
    /// The program has to give up.
    Abort(Fatal),
}

/// A [`Wait`] as plain values.
pub enum WaitView {
    Again,
    Done,
    Abort(FatalView),
}

impl View for Wait {
    type V = WaitView;

    open spec fn view(&self) -> WaitView {
        match self {
            Wait::Again => WaitView::Again,
            Wait::Done => WaitView::Done,
            Wait::Abort(f) => WaitView::Abort(f@),
        }
    }
}

/// The state that an exit code leaves a task in: `Completed` for code 0,
/// `Error` for any other code and for none.
pub open spec fn exit_status(code: Option<i32>) -> TaskStatus {
    if code == Some(0i32) {
        TaskStatus::completed()
    } else {
        TaskStatus::error()
    }
}

/// The code shown for an exit: 0 where the process had none.
pub open spec fn shown_code(code: Option<i32>) -> int {
    match code {
        Some(c) => c as int,
        None => 0,
    }
}

/// The notice shown before a command is spawned.
pub open spec fn spawn_notice(command: Seq<Seq<char>>) -> Seq<char> {
    "Spawning command: "@ + joined(command, " "@)
}

/// The line that sums up an exit.
pub open spec fn exit_summary(command: Seq<Seq<char>>, code: Option<i32>) -> Seq<char> {
    "Process `"@ + joined(command, " "@) + "` exited with "@ + decimal(shown_code(code))
}

/// The lines of one stream as they are shown: nothing for no lines, else
/// one entry that holds them all, a line feed between each two.
pub open spec fn drained(lines: Seq<Seq<char>>) -> Seq<Seq<char>> {
    if lines.len() == 0 {
        Seq::empty()
    } else {
        seq![joined(lines, "\n"@)]
    }
}

/// All that is shown when an exit is seen: what the process wrote to
/// standard output, what it wrote to standard error, then the summary.
pub open spec fn exit_output(
    command: Seq<Seq<char>>,
    code: Option<i32>,
    stdout: Seq<Seq<char>>,
    stderr: Seq<Seq<char>>,
) -> Seq<Seq<char>> {
    drained(stdout) + drained(stderr) + seq![exit_summary(command, code)]
}

/// Giving up because a command could not be spawned. In verbose mode the
/// line says why.
pub open spec fn spawn_failure(verbose: bool, why: Seq<char>) -> FatalView {
    FatalView {
        message: if verbose {
            "Cannot spawn child process"@ + ": "@ + why
        } else {
            "Cannot spawn child process"@
        },
        code: FAILURE_CODE,
    }
}

/// Giving up because a look at a process failed.
pub open spec fn wait_failure(detail: Seq<char>) -> FatalView {
    FatalView { message: "Error in child process: "@ + detail, code: FAILURE_CODE }
}

/// Giving up because a task that must not fail has failed.
pub open spec fn task_failure() -> FatalView {
    FatalView { message: "Task failed with error..."@, code: FAILURE_CODE }
}

/// A task as plain values.
pub struct TaskView {
    pub command: Seq<Seq<char>>,
    pub status: TaskStatus,
    pub non_fatal: bool,
    /// Whether the task holds the handle of a process.
    pub has_process: bool,
}

/// A task as it is made: it waits, must not fail and holds no process.
pub open spec fn fresh_task(command: Seq<Seq<char>>) -> TaskView {
    TaskView { command, status: TaskStatus::waiting(), non_fatal: false, has_process: false }
}

impl TaskView {
    /// A task is in order: its command names a program, and it holds a
    /// process exactly while it is running.
    pub open spec fn wf(self) -> bool {
        &&& self.command.len() > 0
        &&& self.has_process <==> self.status == TaskStatus::running()
    }

    /// A task that failed and is allowed to.
    pub open spec fn is_tolerated(self) -> bool {
        self.status == TaskStatus::error() && self.non_fatal
    }

    /// A task that failed and must not.
    pub open spec fn is_fatal(self) -> bool {
        self.status == TaskStatus::error() && !self.non_fatal
    }

    /// A task that stands in nobody's way: completed, or failed and allowed to.
    pub open spec fn is_settled(self) -> bool {
        self.status == TaskStatus::completed() || self.is_tolerated()
    }

    /// The task after its process was spawned. Only a waiting task starts.
    pub open spec fn started(self) -> TaskView {
        if self.status == TaskStatus::waiting() {
            TaskView { status: TaskStatus::running(), has_process: true, ..self }
        } else {
            self
        }
    }

    /// The task after a look at its process. Only a running task is
    /// touched: an exit ends it, a failed look ends it where it is allowed
    /// to fail, and anything else leaves it as it is.
    pub open spec fn observed(self, seen: ObservationView) -> TaskView {
        if self.status != TaskStatus::running() {
            self
        } else {
            match seen {
                ObservationView::Exited { code, .. } => TaskView {
                    status: exit_status(code),
                    has_process: false,
                    ..self
                },
                ObservationView::StillRunning => self,
                ObservationView::Failed { .. } => if self.non_fatal {
                    TaskView { status: TaskStatus::error(), has_process: false, ..self }
                } else {
                    self
                },
            }
        }
    }

    /// The lines shown at a look: those of an exit, where a running task
    /// is seen to have gone, and none otherwise.
    pub open spec fn shown(self, seen: ObservationView) -> Seq<Seq<char>> {
        if self.status != TaskStatus::running() {
            Seq::empty()
        } else {
            match seen {
                ObservationView::Exited { code, stdout, stderr } => exit_output(
                    self.command,
                    code,
                    stdout,
                    stderr,
                ),
                _ => Seq::empty(),
            }
        }
    }

    /// Whether a look ends the program: it does where the look at a
    /// running task failed and the task must not fail.
    pub open spec fn given_up(self, seen: ObservationView) -> Option<FatalView> {
        if self.status != TaskStatus::running() {
            None
        } else {
            match seen {
                ObservationView::Failed { detail } if !self.non_fatal => Some(wait_failure(detail)),
                _ => None,
            }
        }
    }

    /// What a poll with this look gives.
    pub open spec fn polled(self, seen: ObservationView) -> PollView {
        PollView {
            status: self.observed(seen).status,
            output: self.shown(seen),
            fatal: self.given_up(seen),
        }
    }

    /// How a wait goes on after a poll with this look.
    pub open spec fn waited(self, seen: ObservationView) -> WaitView {
        let after = self.observed(seen);
        match self.given_up(seen) {
            Some(f) => WaitView::Abort(f),
            None => if after.status == TaskStatus::completed() {
                WaitView::Done
            } else if after.status == TaskStatus::error() {
                if after.non_fatal {
                    WaitView::Done
                } else {
                    WaitView::Abort(task_failure())
                }
            } else {
                WaitView::Again
            },
        }
    }
}

impl TaskView {
    /// The task after a row of looks, one after the other.
    pub open spec fn observed_all(self, looks: Seq<ObservationView>) -> TaskView
        decreases looks.len(),
    {
        if looks.len() == 0 {
            self
        } else {
            self.observed_all(looks.drop_last()).observed(looks.last())
        }
    }

    /// No look takes a waiting task out of `Waiting` or a terminal task
    /// out of its state, and a running task goes nowhere but to a terminal
    /// state: the states are left in the order `Waiting`, `Running`, then
    /// `Completed` or `Error`. A task in order stays in order.
    pub proof fn lemma_observed_moves_forward(self, seen: ObservationView)
        ensures
            self.status != TaskStatus::running() ==> self.observed(seen) == self,
            self.status == TaskStatus::running() ==> self.observed(seen).status
                == TaskStatus::running() || self.observed(seen).status.is_terminal(),
            self.wf() ==> self.observed(seen).wf(),
            self.wf() ==> self.started().wf(),
            self.observed(seen).command == self.command,
            self.observed(seen).non_fatal == self.non_fatal,
    {
    }

    /// Polling a task that has ended changes nothing, however often it is
    /// done and whatever is seen: the task stays as it is, and each poll
    /// gives the same status, shows nothing and ends nothing. What a
    /// process wrote is therefore shown once only, by the poll that first
    /// sees the exit.
    pub proof fn lemma_poll_after_end(self, looks: Seq<ObservationView>, seen: ObservationView)
        requires
            self.status.is_terminal(),
        ensures
            self.observed_all(looks) == self,
            self.observed_all(looks).polled(seen) == (PollView {
                status: self.status,
                output: Seq::empty(),
                fatal: None,
            }),
        decreases looks.len(),
    {
        if looks.len() > 0 {
            self.lemma_poll_after_end(looks.drop_last(), looks.last());
        }
    }

    /// The poll that sees a running task exit ends it: from then on the
    /// task is in a terminal state, and every later poll is one of
    /// [`TaskView::lemma_poll_after_end`].
    pub proof fn lemma_exit_ends(
        self,
        code: Option<i32>,
        stdout: Seq<Seq<char>>,
        stderr: Seq<Seq<char>>,
    )
        requires
            self.status == TaskStatus::running(),
        ensures
            self.observed(ObservationView::Exited { code, stdout, stderr }).status.is_terminal(),
            self.observed(ObservationView::Exited { code, stdout, stderr }).status == exit_status(
                code,
            ),
            !self.observed(ObservationView::Exited { code, stdout, stderr }).has_process,
            self.shown(ObservationView::Exited { code, stdout, stderr }) == exit_output(
                self.command,
                code,
                stdout,
                stderr,
            ),
    {
    }
}

/// An external command, the handle of its process once it is started, and
/// its state. `P` is the type of the handle, which the task only keeps.
#[derive(Debug)]
pub struct Task<P> {
    proc: Option<P>,
    status: TaskStatus,
    non_fatal: bool,
    cmd: CommandStr,
}

impl<P> View for Task<P> {
    type V = TaskView;

    closed spec fn view(&self) -> TaskView {
        TaskView {
            command: self.cmd.deep_view(),
            status: self.status,
            non_fatal: self.non_fatal,
            has_process: self.proc is Some,
        }
    }
}

impl<P> Task<P> {
    /// A task for `cmd` that waits to be started and must not fail. The
    /// command holds at least the name of a program.
    pub fn new(cmd: CommandStr) -> (task: Self)
        requires
            cmd@.len() > 0,
        ensures
            task@.wf(),
            task@ == fresh_task(cmd.deep_view()),
    {
        Task { proc: None, cmd, non_fatal: false, status: TaskStatus::waiting() }
    }

    /// Says whether the task may fail without failing the run.
    pub fn set_non_fatal(&mut self, non_fatal: bool)
        ensures
            final(self)@ == (TaskView { non_fatal, ..old(self)@ }),
    {
        self.non_fatal = non_fatal;
    }

    pub fn is_non_fatal(&self) -> (flag: bool)
        ensures
            flag == self@.non_fatal,
    {
        self.non_fatal
    }

    /// The state as it was last seen. Nothing is looked at.
    pub fn status(&self) -> (status: TaskStatus)
        ensures
            status == self@.status,
    {
        self.status
    }

    pub fn command(&self) -> (cmd: &CommandStr)
        ensures
            cmd.deep_view() == self@.command,
            self@.wf() ==> cmd@.len() > 0,
    {
        &self.cmd
    }

    /// The handle of the process, for the caller to look after it. There
    /// is one exactly where the view says so, and the view stays as it is
    /// whatever is done through the handle.
    pub fn process_mut(&mut self) -> (handle: Option<&mut P>)
        ensures
            handle is Some <==> old(self)@.has_process,
            final(self)@ == old(self)@,
    {
        self.proc.as_mut()
    }

    /// The notice to show before the command is spawned.
    pub fn spawn_notice(&self) -> (notice: String)
        ensures
            notice@ == spawn_notice(self@.command),
    {
        let mut notice = String::from_str("Spawning command: ");
        let line = join(&self.cmd, " ");
        notice.append(line.as_str());
        notice
    }

    /// Takes in what came of spawning the command: the handle of the new
    /// process, or a word on why there is none.
    ///
    /// With a handle a waiting task starts to run and keeps it; a task
    /// that has left `Waiting` stays as it is. Without one the program has
    /// to give up, whether the task may fail or not.
    pub fn run(&mut self, spawned: Result<P, String>, reporter: &Reporter) -> (r: Result<(), Fatal>)
        ensures
            spawned is Ok ==> r is Ok && final(self)@ == old(self)@.started(),
            spawned matches Err(why) ==> final(self)@ == old(self)@ && (r matches Err(f) && f@
                == spawn_failure(reporter.verbose(), why@)),
    {
        match spawned {
            Ok(handle) => {
                if self.status == TaskStatus::waiting() {
                    self.status = TaskStatus::running();
                    self.proc = Some(handle);
                }
                Ok(())
            },
            Err(why) => {
                let e = LiebeError::CantSpawnChildProc(join(&self.cmd, " "));
                Err(reporter.failure(&e, Some(why.as_str())))
            },
        }
    }

    /// Polls the task with what a look at its process showed.
    ///
    /// A task that is not running keeps its state, shows nothing and asks
    /// for nothing, whatever the look was: what a process wrote is shown
    /// once, when its exit is first seen. A running task goes by the look.
    pub fn get_status(&mut self, seen: Observation) -> (poll: Poll)
        ensures
            final(self)@ == old(self)@.observed(seen@),
            poll@ =~= old(self)@.polled(seen@),
    {
        if self.status != TaskStatus::running() {
            return Poll { status: self.status, output: Vec::new(), fatal: None };
        }
        match seen {
            Observation::Exited { code, stdout, stderr } => {
                let mut output: Vec<String> = Vec::new();
                push_drained(&mut output, &stdout);
                push_drained(&mut output, &stderr);
                output.push(self.exit_summary(code));
                self.proc = None;
                self.status = match code {
                    Some(0) => TaskStatus::completed(),
                    _ => TaskStatus::error(),
                };
                Poll { status: self.status, output, fatal: None }
            },
            Observation::StillRunning => Poll {
                status: self.status,
                output: Vec::new(),
                fatal: None,
            },
            Observation::Failed { detail } => {
                let mut fatal: Option<Fatal> = None;
                if self.non_fatal {
                    self.proc = None;
                    self.status = TaskStatus::error();
                } else {
                    let mut message = String::from_str("Error in child process: ");
                    message.append(detail.as_str());
                    fatal = Some(Fatal { message, code: FAILURE_CODE });
                }
                Poll { status: self.status, output: Vec::new(), fatal }
            },
        }
    }

    /// One turn of waiting for the task to get through: a poll with what
    /// was seen, then the verdict. The wait is over once the task has
    /// completed, or has failed and may; a task that has failed and must
    /// not ends the program; else the caller looks again.
    pub fn wait(&mut self, seen: Observation) -> (turn: (Vec<String>, Wait))
        ensures
            final(self)@ == old(self)@.observed(seen@),
            turn.0.deep_view() =~= old(self)@.shown(seen@),
            turn.1@ == old(self)@.waited(seen@),
    {
        let poll = self.get_status(seen);
        let Poll { status, output, fatal } = poll;
        let next = match fatal {
            Some(f) => Wait::Abort(f),
            None => {
                if status == TaskStatus::completed() {
                    Wait::Done
                } else if status == TaskStatus::error() {
                    if self.non_fatal {
                        Wait::Done
                    } else {
                        Wait::Abort(
                            Fatal {
                                message: String::from_str("Task failed with error..."),
                                code: FAILURE_CODE,
                            },
                        )
                    }
                } else {
                    Wait::Again
                }
            },
        };
        (output, next)
    }

    fn exit_summary(&self, code: Option<i32>) -> (line: String)
        ensures
            line@ == exit_summary(self@.command, code),
    {
        let shown: i32 = match code {
            Some(c) => c,
            None => 0,
        };
        let mut line = String::from_str("Process `");
        let command = join(&self.cmd, " ");
        line.append(command.as_str());
        line.append("` exited with ");
        let number = decimal_string(shown);
        line.append(number.as_str());
        line
    }
}

/// Adds the lines of one stream to what is shown, as one entry, if there
/// are any.
fn push_drained(output: &mut Vec<String>, lines: &Vec<String>)
    ensures
        final(output).deep_view() =~= old(output).deep_view() + drained(lines.deep_view()),
{
    if lines.len() > 0 {
        output.push(join(lines, "\n"));
    }
}

} // verus!
