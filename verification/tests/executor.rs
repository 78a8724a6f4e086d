use libthere::executor::simple::{
    chunk_text, program_and_args, source_outcome, Received, SimpleError, SimpleEvent, SimpleExecution,
    SimpleExecutionContext, SimpleLogSource, SimpleNext,
};
use libthere::executor::ssh::{
    channel_action, check_command, check_passes, ensure_debug, ensures_debug, ChannelAction, ChannelEvent,
    SshError, SshEvent, SshExecution, SshExecutionContext, SshNext,
};
use libthere::executor::{log_line, sink_admits, sunk_count, ExecutionContext, LogError, LogSource, PartialLogStream};
use libthere::plan::{Ensure, Plan, PlannedTask, Task, TaskSet};

fn strings(v: &[&str]) -> Vec<String> {
    v.iter().map(|s| s.to_string()).collect()
}

fn one(s: &str) -> PartialLogStream {
    PartialLogStream::Next(vec![s.to_string()])
}

#[test]
fn log_source_reads_until_the_end() {
    let (tx, rx) = tokio::sync::mpsc::channel(69);
    let mut source = SimpleLogSource::new(rx);
    assert_eq!(source.source().unwrap(), PartialLogStream::Next(vec![]));
    tx.try_send(one("hello\n")).unwrap();
    tx.try_send(one("")).unwrap();
    tx.try_send(PartialLogStream::End).unwrap();
    assert_eq!(source.source().unwrap(), one("hello\n"));
    assert_eq!(source.source().unwrap(), one(""));
    assert_eq!(source.source().unwrap(), PartialLogStream::End);
    assert_eq!(source.source(), Err(LogError::AlreadyEnded));
    assert_eq!(source.source(), Err(LogError::AlreadyEnded));
}

#[test]
fn log_source_reports_a_lost_sink() {
    let (tx, rx) = tokio::sync::mpsc::channel::<PartialLogStream>(4);
    let mut source = SimpleLogSource::new(rx);
    drop(tx);
    assert_eq!(source.source(), Err(LogError::SinkLost));
    assert_eq!(LogError::SinkLost.message(), "sink lost");
    assert_eq!(LogError::AlreadyEnded.message(), "Log source already ended");
}

#[test]
fn source_outcome_for_each_reception() {
    assert_eq!(source_outcome(Received::Message(one("x"))), (false, Ok(one("x"))));
    assert_eq!(source_outcome(Received::Message(PartialLogStream::End)), (true, Ok(PartialLogStream::End)));
    assert_eq!(source_outcome(Received::Empty), (false, Ok(PartialLogStream::Next(vec![]))));
    assert_eq!(source_outcome(Received::Disconnected), (false, Err(LogError::SinkLost)));
}

#[test]
fn sunk_counts() {
    assert_eq!(sunk_count(&PartialLogStream::Next(strings(&["a", "b"]))), 2);
    assert_eq!(sunk_count(&PartialLogStream::End), 0);
    assert_eq!(log_line("x".into()), one("x"));
}

#[test]
fn chunks_become_text() {
    assert_eq!(chunk_text(b"hello\n".to_vec()), "hello\n");
    let expected = format!("got: {:#?}", String::from_utf8(vec![0xff, 0xfe]).unwrap_err());
    assert_eq!(chunk_text(vec![0xff, 0xfe]), expected);
}

fn plan_of(tasks: Vec<PlannedTask>) -> Plan {
    Plan::new("deploy".into(), tasks)
}

#[test]
fn contexts_hold_name_and_plan() {
    let plan = plan_of(vec![]);
    let c = SimpleExecutionContext::new("ctx", &plan);
    assert_eq!(c.name(), "ctx");
    assert_eq!(c.plan().name(), "deploy");
    let s = SshExecutionContext::new("ssh", &plan);
    assert_eq!(s.name(), "ssh");
    assert_eq!(s.plan().blueprint().len(), 0);
}

#[test]
fn simple_execution_checks_runs_each_task_then_ends_the_stream_once() {
    let plan = plan_of(vec![
        PlannedTask::new(
            "greet".into(),
            strings(&["echo", "hello"]),
            vec![Ensure::DirectoryExists { path: "/tmp".into() }],
            vec![],
        ),
        PlannedTask::new("list".into(), strings(&["ls"]), vec![], vec![]),
    ]);
    let mut run = SimpleExecution::new(&plan);
    let step = run.start();
    assert_eq!(step.prints, strings(&["* applying plan: deploy", "* steps: 2", "** Executing task: greet"]));
    assert_eq!(step.sinks, vec![one("ensuring DirectoryExists { path: \"/tmp\" }")]);
    assert!(matches!(&step.next, SimpleNext::Check(c) if c == "test -d /tmp"));
    let step = run.step(SimpleEvent::Exited(0));
    assert!(step.sinks.is_empty());
    assert!(matches!(&step.next, SimpleNext::Run(c) if *c == strings(&["echo", "hello"])));
    let step = run.step(SimpleEvent::Ran);
    assert_eq!(run.tasks_completed(), 1);
    assert_eq!(step.prints, strings(&["** Executing task: list"]));
    assert_eq!(step.sinks, vec![one("")]);
    assert!(matches!(&step.next, SimpleNext::Run(c) if *c == strings(&["ls"])));
    let step = run.step(SimpleEvent::Ran);
    assert_eq!(run.tasks_completed(), 2);
    assert_eq!(step.prints, strings(&["* finished applying plan: deploy (2/2)"]));
    assert_eq!(step.sinks, vec![one(""), PartialLogStream::End]);
    assert!(matches!(step.next, SimpleNext::Finish(Ok(()))));
}

#[test]
fn simple_execution_does_not_run_a_task_whose_ensures_fail() {
    let plan = plan_of(vec![PlannedTask::new(
        "create some file".into(),
        strings(&["touch", "/no-such-dir/f"]),
        vec![Ensure::ExeExists { exe: "touch".into() }, Ensure::DirectoryExists { path: "/no-such-dir".into() }],
        vec![],
    )]);
    let mut run = SimpleExecution::new(&plan);
    let step = run.start();
    assert!(matches!(&step.next, SimpleNext::Check(c) if c == "which touch"));
    let step = run.step(SimpleEvent::Exited(0));
    assert_eq!(step.sinks, vec![one("ensuring DirectoryExists { path: \"/no-such-dir\" }")]);
    assert!(matches!(&step.next, SimpleNext::Check(c) if c == "test -d /no-such-dir"));
    let step = run.step(SimpleEvent::Exited(1));
    assert_eq!(
        step.sinks,
        vec![one("ensures failed: [DirectoryExists { path: \"/no-such-dir\" }]"), PartialLogStream::End]
    );
    match step.next {
        SimpleNext::Finish(Err(e)) => {
            assert_eq!(e.message(), "ensures failed: [DirectoryExists { path: \"/no-such-dir\" }]");
            assert_eq!(e.context(), "failed executing task: create some file");
            assert!(matches!(e, SimpleError::EnsuresFailed { .. }));
        }
        _ => panic!("expected a failure"),
    }
    assert_eq!(run.tasks_completed(), 0);
}

#[test]
fn simple_execution_of_an_empty_plan() {
    let plan = plan_of(vec![]);
    let mut run = SimpleExecution::new(&plan);
    let step = run.start();
    assert_eq!(
        step.prints,
        strings(&["* applying plan: deploy", "* steps: 0", "* finished applying plan: deploy (0/0)"])
    );
    assert_eq!(step.sinks, vec![PartialLogStream::End]);
    assert!(matches!(step.next, SimpleNext::Finish(Ok(()))));
}

#[test]
fn commands_part_into_program_and_arguments() {
    assert_eq!(
        program_and_args(&strings(&["touch", "/tmp/a b"])),
        Some(("touch".to_string(), strings(&["/tmp/a b"])))
    );
    assert_eq!(program_and_args(&vec![]), None);
}

#[test]
fn ensure_rendering_and_checks() {
    let exe = Ensure::ExeExists { exe: "echo".into() };
    assert_eq!(ensure_debug(&exe), "ExeExists { exe: \"echo\" }");
    let dir = Ensure::DirectoryExists { path: "/tmp".into() };
    assert_eq!(
        ensures_debug(&vec![exe.clone(), dir.clone()]),
        "[ExeExists { exe: \"echo\" }, DirectoryExists { path: \"/tmp\" }]"
    );
    assert_eq!(ensures_debug(&vec![]), "[]");
    assert_eq!(check_command(&exe), "which echo");
    assert_eq!(check_command(&dir), "test -d /tmp");
    assert_eq!(check_command(&Ensure::FileExists { path: "/a b".into() }), "test -f '/a b'");
    assert_eq!(check_command(&Ensure::FileDoesntExist { path: "/f".into() }), "test -e /f");
    assert_eq!(check_command(&Ensure::DirectoryDoesntExist { path: "/d".into() }), "test -e /d");
    assert!(check_passes(&exe, 0));
    assert!(!check_passes(&exe, 1));
    assert!(check_passes(&Ensure::DirectoryDoesntExist { path: "/d".into() }, 1));
    assert!(!check_passes(&Ensure::FileDoesntExist { path: "/f".into() }, 0));
}

#[test]
fn channel_messages() {
    match channel_action(ChannelEvent::Data(b"a\nb\n".to_vec())) {
        ChannelAction::Sink(p) => assert_eq!(p, PartialLogStream::Next(strings(&["a", "b", ""]))),
        _ => panic!("expected logs"),
    }
    match channel_action(ChannelEvent::ExtendedData(b"err".to_vec())) {
        ChannelAction::Sink(p) => assert_eq!(p, one("err")),
        _ => panic!("expected logs"),
    }
    let expected = String::from_utf8(vec![0xc3]).unwrap_err().to_string();
    assert!(matches!(channel_action(ChannelEvent::Data(vec![0xc3])), ChannelAction::InvalidUtf8(m) if m == expected));
    assert!(matches!(channel_action(ChannelEvent::ExitStatus(3)), ChannelAction::Return(3)));
    assert!(matches!(channel_action(ChannelEvent::Close), ChannelAction::Return(511)));
    assert!(matches!(channel_action(ChannelEvent::NoMore), ChannelAction::Return(511)));
    assert!(matches!(channel_action(ChannelEvent::Eof), ChannelAction::Continue));
    assert!(matches!(channel_action(ChannelEvent::Success), ChannelAction::Continue));
}

fn ssh_plan() -> Plan {
    plan_of(vec![PlannedTask::new(
        "test command".into(),
        strings(&["echo", "hello", "world!"]),
        vec![Ensure::ExeExists { exe: "echo".into() }],
        vec![],
    )])
}

#[test]
fn ssh_execution_checks_then_runs_then_finishes() {
    let plan = ssh_plan();
    let mut run = SshExecution::new(&plan, "host1".into());
    let step = run.start();
    assert_eq!(step.sinks, vec![one("* steps: 1")]);
    assert!(matches!(step.next, SshNext::Connect));
    let step = run.step(SshEvent::Authenticated(true));
    assert_eq!(step.sinks, vec![one("** executing task: test command"), one("ensuring ExeExists { exe: \"echo\" }")]);
    assert!(matches!(&step.next, SshNext::Run(c) if c == "which echo"));
    let step = run.step(SshEvent::Exited(0));
    assert!(step.sinks.is_empty());
    assert!(matches!(&step.next, SshNext::Run(c) if c == "echo hello world!"));
    let step = run.step(SshEvent::Exited(0));
    assert_eq!(step.sinks, vec![one("")]);
    assert!(matches!(step.next, SshNext::Proceed));
    assert_eq!(run.tasks_completed(), 0);
    let step = run.step(SshEvent::Proceeded);
    assert_eq!(run.tasks_completed(), 1);
    assert_eq!(step.sinks, vec![one("*** finished applying plan: deploy -> host1 (1/1)"), PartialLogStream::End]);
    assert!(matches!(step.next, SshNext::Finish(Ok(()))));
}

#[test]
fn ssh_execution_stops_on_failed_ensures() {
    let plan = ssh_plan();
    let mut run = SshExecution::new(&plan, "host1".into());
    run.start();
    run.step(SshEvent::Authenticated(true));
    let step = run.step(SshEvent::Exited(1));
    assert_eq!(step.sinks, vec![one("ensures failed: [ExeExists { exe: \"echo\" }]"), PartialLogStream::End]);
    match step.next {
        SshNext::Finish(Err(e)) => {
            assert_eq!(e.message(), "ensures failed: [ExeExists { exe: \"echo\" }]");
            assert_eq!(e.context(), Some("failed executing ssh task: test command".to_string()));
            assert!(matches!(e, SshError::EnsuresFailed { .. }));
        }
        _ => panic!("expected a failure"),
    }
    assert_eq!(run.tasks_completed(), 0);
}

#[test]
fn ssh_execution_stops_when_authentication_fails() {
    let plan = ssh_plan();
    let mut run = SshExecution::new(&plan, "host1".into());
    run.start();
    let step = run.step(SshEvent::Authenticated(false));
    assert_eq!(step.sinks, vec![one("ssh authentication failed!"), PartialLogStream::End]);
    match step.next {
        SshNext::Finish(Err(e)) => {
            assert_eq!(e.message(), "ssh authentication failed!");
            assert_eq!(e.context(), None);
        }
        _ => panic!("expected a failure"),
    }
}

#[test]
fn ssh_execution_of_an_empty_plan() {
    let plan = plan_of(vec![]);
    let mut run = SshExecution::new(&plan, "h".into());
    assert_eq!(run.start().sinks, vec![one("* steps: 0")]);
    let step = run.step(SshEvent::Authenticated(true));
    assert_eq!(step.sinks, vec![one("*** finished applying plan: deploy -> h (0/0)"), PartialLogStream::End]);
    assert!(matches!(step.next, SshNext::Finish(Ok(()))));
}

#[test]
fn ssh_commands_are_quoted_for_sh() {
    let plan = plan_of(vec![PlannedTask::new(
        "touch it".into(),
        strings(&["touch", "/tmp/a b"]),
        vec![],
        vec![],
    )]);
    let mut run = SshExecution::new(&plan, "h".into());
    run.start();
    let step = run.step(SshEvent::Authenticated(true));
    match &step.next {
        SshNext::Run(c) => {
            assert_eq!(c, "touch '/tmp/a b'");
            assert_eq!(shell_words::split(c).unwrap(), strings(&["touch", "/tmp/a b"]));
        }
        _ => panic!("expected the command"),
    }
}

#[test]
fn log_source_after_the_end_leaves_the_channel() {
    let (tx, rx) = tokio::sync::mpsc::channel(4);
    let mut source = SimpleLogSource::new(rx);
    tx.try_send(PartialLogStream::End).unwrap();
    tx.try_send(one("later")).unwrap();
    assert_eq!(source.source().unwrap(), PartialLogStream::End);
    assert_eq!(source.source(), Err(LogError::AlreadyEnded));
    assert_eq!(source.source(), Err(LogError::AlreadyEnded));
}

#[test]
fn simple_execution_runs_a_raw_command_without_checks() {
    let mut taskset = TaskSet::new("test");
    taskset.add_task(Task::Command { name: "test".into(), command: "echo 'hello'".into(), hosts: vec![] });
    let plan = taskset.plan().unwrap();
    assert!(plan.blueprint()[0].is_raw_command());
    let mut run = SimpleExecution::new(&plan);
    let step = run.start();
    assert_eq!(step.prints, strings(&["* applying plan: test", "* steps: 1", "** Executing task: test"]));
    assert!(step.sinks.is_empty());
    assert!(matches!(&step.next, SimpleNext::Run(c) if *c == strings(&["echo", "hello"])));
    let step = run.step(SimpleEvent::Ran);
    assert_eq!(run.tasks_completed(), 1);
    assert_eq!(step.prints, strings(&["* finished applying plan: test (1/1)"]));
    assert_eq!(step.sinks, vec![one(""), PartialLogStream::End]);
    assert!(matches!(step.next, SimpleNext::Finish(Ok(()))));
}

#[test]
fn only_command_tasks_are_raw_commands() {
    let mut taskset = TaskSet::new("kinds");
    taskset.add_task(Task::Command { name: "c".into(), command: "ls -l".into(), hosts: vec![] });
    taskset.add_task(Task::CreateDirectory { name: "d".into(), path: "/tmp/d".into(), hosts: vec![] });
    taskset.add_task(Task::TouchFile { name: "f".into(), path: "/tmp/f".into(), hosts: vec![] });
    let plan = taskset.plan().unwrap();
    let raw: Vec<bool> = plan.blueprint().iter().map(|t| t.is_raw_command()).collect();
    assert_eq!(raw, vec![true, false, false]);
}

#[test]
fn joined_commands_split_back_even_with_empty_words() {
    let plan = plan_of(vec![PlannedTask::new("e".into(), strings(&["echo", "", "a b"]), vec![], vec![])]);
    let mut run = SshExecution::new(&plan, "h".into());
    run.start();
    let step = run.step(SshEvent::Authenticated(true));
    match &step.next {
        SshNext::Run(c) => assert_eq!(shell_words::split(c).unwrap(), strings(&["echo", "", "a b"])),
        _ => panic!("expected the command"),
    }
}

#[test]
fn a_sink_closes_after_the_end() {
    assert_eq!(sink_admits(false, &one("x")), Ok(false));
    assert_eq!(sink_admits(false, &PartialLogStream::End), Ok(true));
    assert_eq!(sink_admits(true, &one("x")), Err(LogError::SinkEnded));
    assert_eq!(LogError::SinkEnded.message(), "Log sink already ended");
}
