use lcore::error::{Fatal, LiebeError, Reporter};
use lcore::runner::{Action, Event, Runner, RunnerHandle, Step, Task, TaskStatus};
use lcore::schedule::POLL_INTERVAL_MS;
use lcore::stage::BuildStage;
use lcore::task::Observation;

/// How the process of one task behaves: how many looks find it at work,
/// and the code it then exits with.
struct Script {
    looks: u32,
    code: Option<i32>,
}

fn script(looks: u32, code: i32) -> Script {
    Script { looks, code: Some(code) }
}

fn task(name: &str, non_fatal: bool) -> Task<usize> {
    let mut task = Task::new(vec![name.to_string()]);
    task.set_non_fatal(non_fatal);
    task
}

fn runner_of(max_proc: usize, tasks: &[(&str, bool)]) -> Runner<usize> {
    let mut runner = Runner::new(Some(max_proc));
    for (name, non_fatal) in tasks {
        runner.add_task(task(name, *non_fatal));
    }
    runner
}

/// Plays the part of the program around the runner: does what the runner
/// asks for on scripted processes and writes down what it did.
fn drive(runner: &mut Runner<usize>, scripts: &[Script], log: &mut Vec<String>) -> Action {
    let reporter = Reporter::new(false);
    let mut left: Vec<u32> = scripts.iter().map(|s| s.looks).collect();
    let mut step = runner.run();
    for _ in 0..10_000 {
        for line in &step.output {
            log.push(format!("show {}", line));
        }
        let event = match step.action {
            Action::Spawn { task } => {
                log.push(format!("spawn {}", task));
                Event::Spawned(task)
            }
            Action::Poll { task } => {
                log.push(format!("poll {}", task));
                if left[task] == 0 {
                    Event::Observed(Observation::Exited {
                        code: scripts[task].code,
                        stdout: Vec::new(),
                        stderr: Vec::new(),
                    })
                } else {
                    left[task] -= 1;
                    Event::Observed(Observation::StillRunning)
                }
            }
            Action::Sleep { millis } => {
                log.push(format!("sleep {}", millis));
                Event::Slept
            }
            done => return done,
        };
        step = runner.step(event, &reporter);
    }
    panic!("the run did not end");
}

fn spawned(log: &[String]) -> Vec<String> {
    log.iter().filter(|l| l.starts_with("spawn ")).cloned().collect()
}

fn text(items: &[&str]) -> Vec<String> {
    items.iter().map(|s| s.to_string()).collect()
}

#[test]
fn new_runner_defaults() {
    let runner: Runner<usize> = Runner::new(None);
    assert_eq!(runner.max_proc(), 1);
    assert_eq!(runner.get_status(), TaskStatus::waiting());
    assert_eq!(runner.pending_len(), 0);
    assert_eq!(runner.done_len(), 0);
    let host: Runner<usize> = Runner::new(Some(8));
    assert_eq!(host.max_proc(), 8);
    let none: Runner<usize> = Runner::new(Some(0));
    assert_eq!(none.max_proc(), 1);
}

#[test]
fn set_max_proc_sets_the_ceiling() {
    let mut runner: Runner<usize> = Runner::new(Some(4));
    runner.set_max_proc(2);
    assert_eq!(runner.max_proc(), 2);
}

#[test]
fn add_task_appends_to_the_pending_tasks() {
    let runner = runner_of(2, &[("a", false), ("b", true)]);
    assert_eq!(runner.pending_len(), 2);
    assert_eq!(runner.pending_task(0).unwrap().command(), &text(&["a"]));
    assert_eq!(runner.pending_task(1).unwrap().command(), &text(&["b"]));
    assert!(runner.pending_task(1).unwrap().is_non_fatal());
    assert!(runner.pending_task(2).is_none());
    assert!(runner.done_task(0).is_none());
    assert_eq!(runner.get_status(), TaskStatus::waiting());
}

#[test]
fn run_of_nothing_is_completed_at_once() {
    let mut runner: Runner<usize> = Runner::new(Some(3));
    let step = runner.run();
    assert_eq!(step, Step { output: Vec::new(), action: Action::Finished });
    assert_eq!(runner.get_status(), TaskStatus::completed());
}

#[test]
fn run_asks_for_the_first_spawn_and_shows_its_notice() {
    let mut runner: Runner<usize> = Runner::new(Some(2));
    runner.add_task(Task::new(text(&["echo", "hello", "warld"])));
    let step = runner.run();
    assert_eq!(
        step,
        Step {
            output: text(&["Spawning command: echo hello warld"]),
            action: Action::Spawn { task: 0 },
        }
    );
    assert_eq!(runner.get_status(), TaskStatus::running());
}

#[test]
fn three_tasks_with_a_ceiling_of_two_run_in_two_windows() {
    let mut runner = runner_of(2, &[("sleep1", false), ("sleep2", false), ("sleep3", false)]);
    let mut log = Vec::new();
    let end = drive(&mut runner, &[script(1, 0), script(2, 0), script(1, 0)], &mut log);
    assert_eq!(end, Action::Finished);
    assert_eq!(runner.get_status(), TaskStatus::completed());
    assert_eq!(
        log,
        text(&[
            "show Spawning command: sleep1",
            "spawn 0",
            "show Spawning command: sleep2",
            "spawn 1",
            "poll 0",
            "poll 1",
            "sleep 20",
            "poll 0",
            "show Process `sleep1` exited with 0",
            "poll 1",
            "sleep 20",
            "poll 1",
            "show Process `sleep2` exited with 0",
            "show Spawning command: sleep3",
            "spawn 2",
            "poll 2",
            "sleep 20",
            "poll 2",
            "show Process `sleep3` exited with 0",
        ])
    );
}

#[test]
fn the_pause_between_rounds_is_twenty_milliseconds() {
    assert_eq!(POLL_INTERVAL_MS, 20);
    let mut runner = runner_of(1, &[("a", false)]);
    let reporter = Reporter::new(false);
    assert_eq!(runner.run().action, Action::Spawn { task: 0 });
    assert_eq!(runner.step(Event::Spawned(0), &reporter).action, Action::Poll { task: 0 });
    assert_eq!(
        runner.step(Event::Observed(Observation::StillRunning), &reporter),
        Step { output: Vec::new(), action: Action::Sleep { millis: 20 } }
    );
    assert_eq!(runner.step(Event::Slept, &reporter).action, Action::Poll { task: 0 });
}

#[test]
fn all_tasks_exiting_with_zero_complete_the_run_for_every_ceiling() {
    for count in 0..6usize {
        for max_proc in 1..8usize {
            let names: Vec<(&str, bool)> = (0..count).map(|_| ("t", false)).collect();
            let scripts: Vec<Script> = (0..count).map(|i| script((i % 3) as u32, 0)).collect();
            let mut runner = runner_of(max_proc, &names);
            let mut log = Vec::new();
            let end = drive(&mut runner, &scripts, &mut log);
            assert_eq!(end, Action::Finished);
            assert_eq!(runner.get_status(), TaskStatus::completed());
            assert_eq!(spawned(&log).len(), count);
            assert_eq!(runner.pending_len(), 0);
            assert_eq!(runner.done_len(), count);
            for id in 0..count {
                assert_eq!(runner.done_task(id).unwrap().status(), TaskStatus::completed());
            }
        }
    }
}

#[test]
fn no_more_processes_than_the_ceiling_are_at_work() {
    for max_proc in 1..5usize {
        let names: Vec<(&str, bool)> = (0..7).map(|_| ("t", false)).collect();
        let scripts: Vec<Script> = (0..7).map(|i| script((i % 4) as u32, 0)).collect();
        let mut runner = runner_of(max_proc, &names);
        let mut log = Vec::new();
        drive(&mut runner, &scripts, &mut log);
        let mut at_work = 0usize;
        let mut most = 0usize;
        for line in &log {
            if line.starts_with("spawn ") {
                at_work += 1;
                most = most.max(at_work);
            } else if line.starts_with("show Process ") {
                at_work -= 1;
            }
        }
        assert_eq!(most, max_proc.min(7));
        assert_eq!(at_work, 0);
    }
}

#[test]
fn a_window_is_spawned_only_when_the_one_before_is_through() {
    let names: Vec<(&str, bool)> = (0..5).map(|_| ("t", false)).collect();
    let scripts: Vec<Script> = (0..5).map(|i| script((5 - i) as u32, 0)).collect();
    let mut runner = runner_of(2, &names);
    let mut log = Vec::new();
    drive(&mut runner, &scripts, &mut log);
    let mut exits = 0usize;
    for line in &log {
        if line.starts_with("show Process ") {
            exits += 1;
        } else if let Some(place) = line.strip_prefix("spawn ") {
            let place: usize = place.parse().unwrap();
            assert_eq!(exits, place / 2 * 2);
        }
    }
    assert_eq!(exits, 5);
}

#[test]
fn a_task_that_may_fail_does_not_fail_the_run() {
    for max_proc in 1..5usize {
        let mut runner = runner_of(max_proc, &[("a", false), ("b", true), ("c", false)]);
        let mut log = Vec::new();
        let end = drive(&mut runner, &[script(0, 0), script(1, 3), script(0, 0)], &mut log);
        assert_eq!(end, Action::Finished);
        assert_eq!(runner.get_status(), TaskStatus::completed());
        assert_eq!(spawned(&log), text(&["spawn 0", "spawn 1", "spawn 2"]));
        assert_eq!(runner.done_task(0).unwrap().status(), TaskStatus::completed());
        assert_eq!(runner.done_task(1).unwrap().status(), TaskStatus::error());
        assert_eq!(runner.done_task(2).unwrap().status(), TaskStatus::completed());
    }
}

#[test]
fn a_task_that_must_not_fail_fails_the_run() {
    let mut runner = runner_of(3, &[("a", false), ("b", false), ("c", false)]);
    let mut log = Vec::new();
    let end = drive(&mut runner, &[script(0, 0), script(1, 3), script(0, 0)], &mut log);
    assert_eq!(end, Action::Finished);
    assert_eq!(runner.get_status(), TaskStatus::error());
    assert_eq!(runner.done_task(1).unwrap().status(), TaskStatus::error());
}

#[test]
fn after_a_failure_that_must_not_be_no_later_window_is_spawned() {
    let mut runner =
        runner_of(2, &[("a", false), ("b", false), ("c", false), ("d", false), ("e", false)]);
    let mut log = Vec::new();
    let scripts = [script(0, 0), script(0, 1), script(0, 0), script(0, 0), script(0, 0)];
    let end = drive(&mut runner, &scripts, &mut log);
    assert_eq!(end, Action::Finished);
    assert_eq!(runner.get_status(), TaskStatus::error());
    assert_eq!(spawned(&log), text(&["spawn 0", "spawn 1"]));
    assert_eq!(runner.pending_len(), 0);
    assert_eq!(runner.done_len(), 5);
    for id in 2..5 {
        let untouched = runner.done_task(id).unwrap();
        assert_eq!(untouched.status(), TaskStatus::waiting());
    }
}

#[test]
fn a_failure_in_a_later_window_fails_the_run_there() {
    let mut runner =
        runner_of(2, &[("a", false), ("b", false), ("c", false), ("d", false), ("e", false)]);
    let mut log = Vec::new();
    let scripts = [script(0, 0), script(0, 0), script(2, 0), script(0, 7), script(0, 0)];
    drive(&mut runner, &scripts, &mut log);
    assert_eq!(runner.get_status(), TaskStatus::error());
    assert_eq!(spawned(&log), text(&["spawn 0", "spawn 1", "spawn 2", "spawn 3"]));
    assert_eq!(runner.done_task(2).unwrap().status(), TaskStatus::running());
    assert_eq!(runner.done_task(3).unwrap().status(), TaskStatus::error());
    assert_eq!(runner.done_task(4).unwrap().status(), TaskStatus::waiting());
}

#[test]
fn a_single_failing_task_fails_the_run() {
    let mut runner = runner_of(4, &[("false", false)]);
    let mut log = Vec::new();
    let end = drive(&mut runner, &[script(0, 1)], &mut log);
    assert_eq!(end, Action::Finished);
    assert_eq!(runner.get_status(), TaskStatus::error());
    assert_eq!(
        log,
        text(&[
            "show Spawning command: false",
            "spawn 0",
            "poll 0",
            "show Process `false` exited with 1",
        ])
    );
}

#[test]
fn a_command_that_cannot_be_spawned_ends_the_program() {
    for non_fatal in [false, true] {
        let mut runner = runner_of(2, &[("no-such-program", non_fatal), ("echo", false)]);
        let reporter = Reporter::new(false);
        assert_eq!(runner.run().action, Action::Spawn { task: 0 });
        let step =
            runner.step(Event::SpawnFailed { detail: "No such file".to_string() }, &reporter);
        assert_eq!(
            step,
            Step {
                output: Vec::new(),
                action: Action::Abort(Fatal {
                    message: "Cannot spawn child process".to_string(),
                    code: 1
                }),
            }
        );
    }
}

#[test]
fn a_failed_spawn_says_why_when_verbose() {
    let mut runner = runner_of(2, &[("no-such-program", false)]);
    let reporter = Reporter::new(true);
    runner.run();
    let step = runner.step(Event::SpawnFailed { detail: "No such file".to_string() }, &reporter);
    assert_eq!(
        step.action,
        Action::Abort(Fatal {
            message: "Cannot spawn child process: No such file".to_string(),
            code: 1
        })
    );
}

#[test]
fn a_failed_look_at_a_task_that_must_not_fail_ends_the_program() {
    let mut runner = runner_of(1, &[("a", false)]);
    let reporter = Reporter::new(false);
    runner.run();
    runner.step(Event::Spawned(0), &reporter);
    let step = runner
        .step(Event::Observed(Observation::Failed { detail: "lost".to_string() }), &reporter);
    assert_eq!(
        step.action,
        Action::Abort(Fatal { message: "Error in child process: lost".to_string(), code: 1 })
    );
}

#[test]
fn a_failed_look_at_a_task_that_may_fail_fails_the_task_only() {
    let mut runner = runner_of(1, &[("a", true), ("b", false)]);
    let reporter = Reporter::new(false);
    runner.run();
    runner.step(Event::Spawned(0), &reporter);
    let step = runner
        .step(Event::Observed(Observation::Failed { detail: "lost".to_string() }), &reporter);
    assert_eq!(
        step,
        Step { output: text(&["Spawning command: b"]), action: Action::Spawn { task: 1 } }
    );
    assert_eq!(runner.pending_task(0).unwrap().status(), TaskStatus::error());
    assert_eq!(runner.get_status(), TaskStatus::running());
}

#[test]
fn what_a_process_wrote_is_shown_when_its_exit_is_seen() {
    let mut runner = runner_of(1, &[("build", false)]);
    let reporter = Reporter::new(false);
    runner.run();
    runner.step(Event::Spawned(0), &reporter);
    let step = runner.step(
        Event::Observed(Observation::Exited {
            code: Some(0),
            stdout: text(&["one", "two"]),
            stderr: text(&["careful"]),
        }),
        &reporter,
    );
    assert_eq!(
        step,
        Step {
            output: text(&["one\ntwo", "careful", "Process `build` exited with 0"]),
            action: Action::Finished,
        }
    );
    assert_eq!(runner.get_status(), TaskStatus::completed());
}

#[test]
fn an_event_that_was_not_asked_for_moves_nothing() {
    let mut runner = runner_of(2, &[("a", false), ("b", false)]);
    let reporter = Reporter::new(false);
    assert_eq!(runner.run().action, Action::Spawn { task: 0 });
    assert_eq!(
        runner.step(Event::Slept, &reporter),
        Step { output: Vec::new(), action: Action::Spawn { task: 0 } }
    );
    assert_eq!(
        runner.step(Event::Observed(Observation::StillRunning), &reporter).action,
        Action::Spawn { task: 0 }
    );
    assert_eq!(runner.pending_task(0).unwrap().status(), TaskStatus::waiting());
    assert_eq!(runner.step(Event::Spawned(0), &reporter).action, Action::Spawn { task: 1 });
    assert_eq!(runner.step(Event::Spawned(1), &reporter).action, Action::Poll { task: 0 });
    assert_eq!(runner.step(Event::Spawned(5), &reporter).action, Action::Poll { task: 0 });
    assert_eq!(runner.step(Event::Slept, &reporter).action, Action::Poll { task: 0 });
    assert_eq!(runner.pending_task(0).unwrap().status(), TaskStatus::running());
}

#[test]
fn run_during_a_run_moves_nothing() {
    let mut runner = runner_of(2, &[("a", false), ("b", false)]);
    let reporter = Reporter::new(false);
    runner.run();
    runner.step(Event::Spawned(0), &reporter);
    assert_eq!(runner.run(), Step { output: Vec::new(), action: Action::Spawn { task: 1 } });
    assert_eq!(runner.get_status(), TaskStatus::running());
}

#[test]
fn events_without_a_run_move_nothing() {
    let mut runner = runner_of(2, &[("a", false)]);
    let reporter = Reporter::new(false);
    assert_eq!(
        runner.step(Event::Spawned(0), &reporter),
        Step { output: Vec::new(), action: Action::Finished }
    );
    assert_eq!(runner.get_status(), TaskStatus::waiting());
    assert_eq!(runner.pending_len(), 1);
    assert_eq!(runner.pending_task(0).unwrap().status(), TaskStatus::waiting());
}

#[test]
fn a_task_added_during_a_run_is_not_run_and_is_consumed() {
    let mut runner = runner_of(2, &[("a", false)]);
    let reporter = Reporter::new(false);
    runner.run();
    runner.step(Event::Spawned(0), &reporter);
    runner.add_task(task("late", false));
    let step = runner.step(Event::Observed(exit(0)), &reporter);
    assert_eq!(step.action, Action::Finished);
    assert_eq!(runner.get_status(), TaskStatus::completed());
    assert_eq!(runner.pending_len(), 0);
    assert_eq!(runner.done_len(), 2);
    assert_eq!(runner.done_task(1).unwrap().status(), TaskStatus::waiting());
}

fn exit(code: i32) -> Observation {
    Observation::Exited { code: Some(code), stdout: Vec::new(), stderr: Vec::new() }
}

#[test]
fn a_change_of_the_ceiling_during_a_run_waits_for_the_next_run() {
    let mut runner = runner_of(1, &[("a", false), ("b", false)]);
    let reporter = Reporter::new(false);
    runner.run();
    runner.set_max_proc(2);
    assert_eq!(runner.step(Event::Spawned(0), &reporter).action, Action::Poll { task: 0 });
    assert_eq!(runner.step(Event::Observed(exit(0)), &reporter).action, Action::Spawn { task: 1 });
}

#[test]
fn a_runner_can_run_again() {
    let mut runner = runner_of(2, &[("a", false)]);
    let mut log = Vec::new();
    drive(&mut runner, &[script(0, 1)], &mut log);
    assert_eq!(runner.get_status(), TaskStatus::error());
    runner.add_task(task("b", false));
    runner.add_task(task("c", false));
    let mut log = Vec::new();
    let end = drive(&mut runner, &[script(0, 0), script(1, 0)], &mut log);
    assert_eq!(end, Action::Finished);
    assert_eq!(runner.get_status(), TaskStatus::completed());
    assert_eq!(spawned(&log), text(&["spawn 0", "spawn 1"]));
    assert_eq!(runner.done_len(), 3);
}

#[test]
fn process_mut_gives_the_handle_of_a_running_task() {
    let mut runner = runner_of(2, &[("a", false), ("b", false)]);
    let reporter = Reporter::new(false);
    assert!(runner.process_mut(0).is_none());
    runner.run();
    runner.step(Event::Spawned(41), &reporter);
    assert_eq!(runner.process_mut(0), Some(&mut 41));
    assert!(runner.process_mut(1).is_none());
    assert!(runner.process_mut(2).is_none());
    runner.step(Event::Spawned(42), &reporter);
    *runner.process_mut(1).unwrap() = 7;
    assert_eq!(runner.process_mut(1), Some(&mut 7));
    runner.step(Event::Observed(exit(0)), &reporter);
    assert!(runner.process_mut(0).is_none());
}

#[test]
fn tasks_that_are_through_already_are_not_spawned() {
    let reporter = Reporter::new(false);
    let mut started: Task<usize> = Task::new(text(&["a"]));
    assert_eq!(started.run(Ok(9), &reporter), Ok(()));
    let mut ended: Task<usize> = Task::new(text(&["b"]));
    assert_eq!(ended.run(Ok(8), &reporter), Ok(()));
    ended.get_status(exit(0));
    let mut runner: Runner<usize> = Runner::new(Some(1));
    runner.add_task(ended);
    runner.add_task(started);
    runner.add_task(task("c", false));
    assert_eq!(runner.run().action, Action::Poll { task: 1 });
    assert_eq!(runner.step(Event::Observed(exit(0)), &reporter).action, Action::Spawn { task: 2 });
    assert_eq!(runner.step(Event::Spawned(2), &reporter).action, Action::Poll { task: 2 });
    assert_eq!(runner.step(Event::Observed(exit(0)), &reporter).action, Action::Finished);
    assert_eq!(runner.get_status(), TaskStatus::completed());
}

#[test]
fn handle_gives_out_the_joiner_once() {
    let mut handle = RunnerHandle::new(5u8);
    assert!(!handle.is_joined());
    assert_eq!(handle.wait(), Ok(5));
    assert!(handle.is_joined());
    assert_eq!(handle.wait(), Err(LiebeError::ThreadAlreadyJoined));
    assert_eq!(handle.wait(), Err(LiebeError::ThreadAlreadyJoined));
    assert!(handle.is_joined());
}

#[test]
fn a_run_that_nothing_holds_up_takes_two_moves_for_each_task() {
    for count in 0..7usize {
        for max_proc in 1..5usize {
            let names: Vec<(&str, bool)> = (0..count).map(|_| ("t", false)).collect();
            let mut runner = runner_of(max_proc, &names);
            let reporter = Reporter::new(false);
            let mut step = runner.run();
            let mut moves = 0usize;
            loop {
                let event = match step.action {
                    Action::Spawn { task } => Event::Spawned(task),
                    Action::Poll { .. } => Event::Observed(exit(0)),
                    Action::Finished => break,
                    other => panic!("{:?}", other),
                };
                step = runner.step(event, &reporter);
                moves += 1;
            }
            assert_eq!(moves, 2 * count);
            assert_eq!(runner.get_status(), TaskStatus::completed());
            assert_eq!(runner.done_len(), count);
        }
    }
}

#[test]
fn what_is_asked_for_can_be_done() {
    let names: Vec<(&str, bool)> = (0..5).map(|_| ("t", false)).collect();
    let mut runner = runner_of(2, &names);
    let reporter = Reporter::new(false);
    let mut step = runner.run();
    let mut looks = 0u32;
    loop {
        let event = match step.action {
            Action::Spawn { task } => {
                let asked = runner.pending_task(task).unwrap();
                assert_eq!(asked.status(), TaskStatus::waiting());
                assert!(!asked.command().is_empty());
                assert!(runner.process_mut(task).is_none());
                Event::Spawned(task)
            }
            Action::Poll { task } => {
                assert_eq!(runner.pending_task(task).unwrap().status(), TaskStatus::running());
                assert_eq!(runner.process_mut(task), Some(&mut task.clone()));
                looks += 1;
                if looks % 3 == 0 {
                    Event::Observed(exit(0))
                } else {
                    Event::Observed(Observation::StillRunning)
                }
            }
            Action::Sleep { .. } => Event::Slept,
            Action::Finished => break,
            other => panic!("{:?}", other),
        };
        step = runner.step(event, &reporter);
    }
    assert_eq!(runner.get_status(), TaskStatus::completed());
}

#[test]
fn add_stage_adds_a_task_for_each_command() {
    let mut runner = runner_of(2, &[("first", false)]);
    let stage = BuildStage {
        name: "debug".to_string(),
        commands: vec![text(&["cc", "-c", "a.c"]), text(&["ld", "a.o"])],
    };
    assert!(runner.add_stage(stage));
    assert_eq!(runner.pending_len(), 3);
    assert_eq!(runner.pending_task(0).unwrap().command(), &text(&["first"]));
    assert_eq!(runner.pending_task(1).unwrap().command(), &text(&["cc", "-c", "a.c"]));
    assert_eq!(runner.pending_task(2).unwrap().command(), &text(&["ld", "a.o"]));
    for id in 1..3 {
        let added = runner.pending_task(id).unwrap();
        assert_eq!(added.status(), TaskStatus::waiting());
        assert!(!added.is_non_fatal());
    }
}

#[test]
fn add_stage_refuses_a_stage_with_an_empty_command() {
    let mut runner = runner_of(2, &[("first", false)]);
    let stage = BuildStage {
        name: "broken".to_string(),
        commands: vec![text(&["cc"]), text(&[]), text(&["ld"])],
    };
    assert!(!runner.add_stage(stage));
    assert_eq!(runner.pending_len(), 1);
    assert_eq!(runner.pending_task(0).unwrap().command(), &text(&["first"]));
}

#[test]
fn add_stage_of_no_commands_adds_nothing() {
    let mut runner: Runner<usize> = Runner::new(Some(2));
    let stage = BuildStage { name: "empty".to_string(), commands: Vec::new() };
    assert!(runner.add_stage(stage));
    assert_eq!(runner.pending_len(), 0);
}
