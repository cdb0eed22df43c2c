use lcore::error::{Fatal, Reporter};
use lcore::task::{Observation, Poll, Task, TaskStatus, Wait};

fn command(items: &[&str]) -> Vec<String> {
    items.iter().map(|s| s.to_string()).collect()
}

fn lines(items: &[&str]) -> Vec<String> {
    command(items)
}

fn exited(code: Option<i32>) -> Observation {
    Observation::Exited { code, stdout: Vec::new(), stderr: Vec::new() }
}

fn running(items: &[&str]) -> Task<u32> {
    let mut task = Task::new(command(items));
    let reporter = Reporter::new(false);
    assert_eq!(task.run(Ok(1), &reporter), Ok(()));
    task
}

#[test]
fn status_labels() {
    assert_eq!(TaskStatus::completed().get_status(), "COMPLETED");
    assert_eq!(TaskStatus::error().get_status(), "ERROR");
    assert_eq!(TaskStatus::running().get_status(), "RUNNING");
    assert_eq!(TaskStatus::waiting().get_status(), "WAITING");
}

#[test]
fn statuses_differ_from_each_other() {
    let all = [
        TaskStatus::waiting(),
        TaskStatus::running(),
        TaskStatus::completed(),
        TaskStatus::error(),
    ];
    for (i, a) in all.iter().enumerate() {
        for (j, b) in all.iter().enumerate() {
            assert_eq!(a == b, i == j);
        }
    }
}

#[test]
fn new_task_waits() {
    let mut task: Task<u32> = Task::new(command(&["echo", "hi"]));
    assert_eq!(task.status(), TaskStatus::waiting());
    assert!(!task.is_non_fatal());
    assert_eq!(task.command(), &command(&["echo", "hi"]));
    assert!(task.process_mut().is_none());
}

#[test]
fn set_non_fatal_sets_the_flag_only() {
    let mut task: Task<u32> = Task::new(command(&["false"]));
    task.set_non_fatal(true);
    assert!(task.is_non_fatal());
    assert_eq!(task.status(), TaskStatus::waiting());
    task.set_non_fatal(false);
    assert!(!task.is_non_fatal());
}

#[test]
fn spawn_notice_shows_the_joined_command() {
    let task: Task<u32> = Task::new(command(&["echo", "hello", "warld"]));
    assert_eq!(task.spawn_notice(), "Spawning command: echo hello warld");
    let bare: Task<u32> = Task::new(command(&["true"]));
    assert_eq!(bare.spawn_notice(), "Spawning command: true");
}

#[test]
fn run_with_a_handle_starts_a_waiting_task() {
    let reporter = Reporter::new(false);
    let mut task: Task<u32> = Task::new(command(&["sleep", "1"]));
    assert_eq!(task.run(Ok(77), &reporter), Ok(()));
    assert_eq!(task.status(), TaskStatus::running());
    assert_eq!(task.process_mut(), Some(&mut 77));
}

#[test]
fn run_on_a_started_task_changes_nothing() {
    let reporter = Reporter::new(false);
    let mut task = running(&["sleep", "1"]);
    assert_eq!(task.run(Ok(2), &reporter), Ok(()));
    assert_eq!(task.status(), TaskStatus::running());
    assert_eq!(task.process_mut(), Some(&mut 1));
    let _ = task.get_status(exited(Some(0)));
    assert_eq!(task.run(Ok(3), &reporter), Ok(()));
    assert_eq!(task.status(), TaskStatus::completed());
    assert!(task.process_mut().is_none());
}

#[test]
fn run_without_a_handle_gives_up() {
    let terse = Reporter::new(false);
    let mut task: Task<u32> = Task::new(command(&["no-such-program"]));
    assert_eq!(
        task.run(Err("not found".to_string()), &terse),
        Err(Fatal { message: "Cannot spawn child process".to_string(), code: 1 })
    );
    assert_eq!(task.status(), TaskStatus::waiting());
    let verbose = Reporter::new(true);
    assert_eq!(
        task.run(Err("not found".to_string()), &verbose),
        Err(Fatal { message: "Cannot spawn child process: not found".to_string(), code: 1 })
    );
}

#[test]
fn run_without_a_handle_gives_up_on_a_non_fatal_task_too() {
    let terse = Reporter::new(false);
    let mut task: Task<u32> = Task::new(command(&["no-such-program"]));
    task.set_non_fatal(true);
    assert!(task.run(Err("not found".to_string()), &terse).is_err());
}

#[test]
fn poll_of_a_waiting_task_does_nothing() {
    let mut task: Task<u32> = Task::new(command(&["true"]));
    let poll = task.get_status(exited(Some(0)));
    assert_eq!(poll, Poll { status: TaskStatus::waiting(), output: Vec::new(), fatal: None });
    assert_eq!(task.status(), TaskStatus::waiting());
}

#[test]
fn poll_of_a_process_at_work_leaves_the_task_running() {
    let mut task = running(&["sleep", "1"]);
    let poll = task.get_status(Observation::StillRunning);
    assert_eq!(poll, Poll { status: TaskStatus::running(), output: Vec::new(), fatal: None });
    assert_eq!(task.status(), TaskStatus::running());
    assert!(task.process_mut().is_some());
}

#[test]
fn exit_with_code_zero_completes_the_task() {
    let mut task = running(&["echo", "hi"]);
    let poll = task.get_status(Observation::Exited {
        code: Some(0),
        stdout: lines(&["hi"]),
        stderr: Vec::new(),
    });
    assert_eq!(poll.status, TaskStatus::completed());
    assert_eq!(poll.output, lines(&["hi", "Process `echo hi` exited with 0"]));
    assert_eq!(poll.fatal, None);
    assert_eq!(task.status(), TaskStatus::completed());
    assert!(task.process_mut().is_none());
}

#[test]
fn exit_with_another_code_fails_the_task() {
    let mut task = running(&["false"]);
    let poll = task.get_status(exited(Some(1)));
    assert_eq!(poll.status, TaskStatus::error());
    assert_eq!(poll.output, lines(&["Process `false` exited with 1"]));
    assert_eq!(poll.fatal, None);
    assert_eq!(task.status(), TaskStatus::error());
    assert!(task.process_mut().is_none());
}

#[test]
fn exit_with_a_negative_code_is_shown_with_its_sign() {
    let mut task = running(&["prog"]);
    let poll = task.get_status(exited(Some(-3)));
    assert_eq!(poll.status, TaskStatus::error());
    assert_eq!(poll.output, lines(&["Process `prog` exited with -3"]));
}

#[test]
fn exit_without_a_code_fails_the_task_and_shows_zero() {
    let mut task = running(&["sleep", "100"]);
    let poll = task.get_status(exited(None));
    assert_eq!(poll.status, TaskStatus::error());
    assert_eq!(poll.output, lines(&["Process `sleep 100` exited with 0"]));
}

#[test]
fn exit_shows_standard_output_then_standard_error_then_the_summary() {
    let mut task = running(&["make", "all"]);
    let poll = task.get_status(Observation::Exited {
        code: Some(2),
        stdout: lines(&["cc a.c", "cc b.c"]),
        stderr: lines(&["a.c:1: error", "make: *** failed"]),
    });
    assert_eq!(
        poll.output,
        lines(&[
            "cc a.c\ncc b.c",
            "a.c:1: error\nmake: *** failed",
            "Process `make all` exited with 2",
        ])
    );
}

#[test]
fn exit_with_standard_error_only() {
    let mut task = running(&["prog"]);
    let poll = task.get_status(Observation::Exited {
        code: Some(0),
        stdout: Vec::new(),
        stderr: lines(&["warning"]),
    });
    assert_eq!(poll.output, lines(&["warning", "Process `prog` exited with 0"]));
}

#[test]
fn exit_with_one_empty_line_shows_an_empty_entry() {
    let mut task = running(&["prog"]);
    let poll = task.get_status(Observation::Exited {
        code: Some(0),
        stdout: lines(&[""]),
        stderr: Vec::new(),
    });
    assert_eq!(poll.output, lines(&["", "Process `prog` exited with 0"]));
}

#[test]
fn polling_a_terminal_task_again_changes_and_shows_nothing() {
    for code in [Some(0), Some(1), None] {
        let mut task = running(&["echo", "hi"]);
        let first = task.get_status(Observation::Exited {
            code,
            stdout: lines(&["hi"]),
            stderr: Vec::new(),
        });
        assert_eq!(first.output.len(), 2);
        let looks = [
            Observation::Exited { code: Some(0), stdout: lines(&["again"]), stderr: lines(&["x"]) },
            Observation::Exited { code: Some(9), stdout: Vec::new(), stderr: Vec::new() },
            Observation::StillRunning,
            Observation::Failed { detail: "gone".to_string() },
        ];
        for look in looks {
            let poll = task.get_status(look);
            assert_eq!(poll, Poll { status: first.status, output: Vec::new(), fatal: None });
            assert_eq!(task.status(), first.status);
            assert!(task.process_mut().is_none());
        }
    }
}

#[test]
fn failed_look_at_a_task_that_must_not_fail_gives_up() {
    let mut task = running(&["prog"]);
    let poll = task.get_status(Observation::Failed { detail: "no child".to_string() });
    assert_eq!(
        poll.fatal,
        Some(Fatal { message: "Error in child process: no child".to_string(), code: 1 })
    );
    assert_eq!(poll.output, Vec::<String>::new());
    assert_eq!(poll.status, TaskStatus::running());
}

#[test]
fn failed_look_at_a_task_that_may_fail_fails_the_task() {
    let mut task = running(&["prog"]);
    task.set_non_fatal(true);
    let poll = task.get_status(Observation::Failed { detail: "no child".to_string() });
    assert_eq!(poll, Poll { status: TaskStatus::error(), output: Vec::new(), fatal: None });
    assert_eq!(task.status(), TaskStatus::error());
    assert!(task.process_mut().is_none());
}

#[test]
fn wait_goes_on_while_the_process_is_at_work() {
    let mut task = running(&["sleep", "1"]);
    assert_eq!(task.wait(Observation::StillRunning), (Vec::new(), Wait::Again));
    assert_eq!(task.status(), TaskStatus::running());
}

#[test]
fn wait_is_over_when_the_task_completes() {
    let mut task = running(&["true"]);
    let (output, next) = task.wait(exited(Some(0)));
    assert_eq!(output, lines(&["Process `true` exited with 0"]));
    assert_eq!(next, Wait::Done);
    assert_eq!(task.wait(Observation::StillRunning), (Vec::new(), Wait::Done));
}

#[test]
fn wait_gives_up_when_a_task_that_must_not_fail_fails() {
    let mut task = running(&["false"]);
    let (output, next) = task.wait(exited(Some(1)));
    assert_eq!(output, lines(&["Process `false` exited with 1"]));
    assert_eq!(
        next,
        Wait::Abort(Fatal { message: "Task failed with error...".to_string(), code: 1 })
    );
}

#[test]
fn wait_is_over_when_a_task_that_may_fail_fails() {
    let mut task = running(&["false"]);
    task.set_non_fatal(true);
    let (output, next) = task.wait(exited(Some(1)));
    assert_eq!(output, lines(&["Process `false` exited with 1"]));
    assert_eq!(next, Wait::Done);
}

#[test]
fn wait_gives_up_when_the_look_fails() {
    let mut task = running(&["prog"]);
    let (output, next) = task.wait(Observation::Failed { detail: "lost".to_string() });
    assert_eq!(output, Vec::<String>::new());
    assert_eq!(
        next,
        Wait::Abort(Fatal { message: "Error in child process: lost".to_string(), code: 1 })
    );
}

#[test]
fn wait_on_a_task_that_was_never_started_goes_on() {
    let mut task: Task<u32> = Task::new(command(&["true"]));
    assert_eq!(task.wait(exited(Some(0))), (Vec::new(), Wait::Again));
    assert_eq!(task.status(), TaskStatus::waiting());
}
