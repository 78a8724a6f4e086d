use libthere::apply::{schedule, ScheduleError};
use libthere::cli::plan::{
    completed_plan_line, dry_run_lines, executor_type, failed_plan_line, host_log_lines, ExecutorType, InspectError,
    PlanCommand, PlanSubcommand,
};
use libthere::cli::{
    log_level, read_argument_with_regex, read_argument_with_validator, validate_with_pattern, CommandErrors, LogLevel,
    Pattern, PatternError,
};
use libthere::executor::PartialLogStream;
use libthere::plan::host::{Host, HostConfig};
use libthere::plan::{Ensure, Plan, PlannedTask};

fn strings(v: &[&str]) -> Vec<String> {
    v.iter().map(|s| s.to_string()).collect()
}

fn host(addr: &str, port: u16, executor: &str) -> Host {
    Host::new(addr.to_string(), port, executor.to_string(), None)
}

fn plan() -> Plan {
    Plan::new(
        "test plan".into(),
        vec![
            PlannedTask::new("test command".into(), strings(&["echo", "hello", "world!"]), vec![], strings(&["ssh-group"])),
            PlannedTask::new("local only".into(), strings(&["true"]), vec![], strings(&["local-host"])),
        ],
    )
}

#[test]
fn executor_names() {
    assert_eq!(executor_type(&"simple".to_string()), Some(ExecutorType::Local));
    assert_eq!(executor_type(&"local".to_string()), Some(ExecutorType::Local));
    assert_eq!(executor_type(&"ssh".to_string()), Some(ExecutorType::Ssh));
    assert_eq!(executor_type(&"telnet".to_string()), None);
}

#[test]
fn schedule_applies_to_hosts_with_tasks() {
    let mut hosts = HostConfig::default();
    hosts.insert_host("ssh-localhost".into(), host("localhost", 22, "ssh"));
    hosts.insert_host("idle".into(), host("localhost", 22, "ssh"));
    hosts.insert_group("ssh-group".into(), strings(&["ssh-localhost"]));
    hosts.insert_group("idle-group".into(), strings(&["idle"]));
    let s = schedule(&plan(), &hosts, true);
    assert!(s.error.is_none());
    assert_eq!(
        s.lines,
        strings(&[
            "*** applying plan to group: ssh-group ***",
            "*** prepared plan for host: ssh-localhost",
            "*** applying plan to group: idle-group ***",
            "*** skipping host, no tasks: idle",
        ])
    );
    assert_eq!(s.jobs.len(), 1);
    assert_eq!(s.jobs[0].hostname, "ssh-localhost");
    assert_eq!(s.jobs[0].executor, Some(ExecutorType::Ssh));
    assert_eq!(s.jobs[0].plan.blueprint().len(), 1);
    assert_eq!(s.jobs[0].host.host(), "localhost");
}

#[test]
fn schedule_stops_at_a_missing_host_or_unknown_executor() {
    let mut hosts = HostConfig::default();
    hosts.insert_group("ssh-group".into(), strings(&["ghost"]));
    let s = schedule(&plan(), &hosts, true);
    assert!(s.jobs.is_empty());
    let e = s.error.unwrap();
    assert_eq!(e.cli_message(), "couldn't find host ghost");
    assert_eq!(e.controller_message(), "hostname not in host map: ghost");

    let mut hosts = HostConfig::default();
    hosts.insert_host("h".into(), host("localhost", 22, "telnet"));
    hosts.insert_group("ssh-group".into(), strings(&["h"]));
    let s = schedule(&plan(), &hosts, true);
    assert!(matches!(&s.error, Some(ScheduleError::UnknownExecutor(x)) if x == "telnet"));
    assert_eq!(s.error.unwrap().cli_message(), "unknown executor type: telnet");
    let s = schedule(&plan(), &hosts, false);
    assert!(s.error.is_none());
    assert_eq!(s.jobs[0].executor, None);
}

fn readme_hosts() -> HostConfig {
    let mut hosts = HostConfig::default();
    hosts.insert_host("broken-ssh".into(), host("localhost", 2222, "ssh"));
    hosts.insert_host("ssh-localhost".into(), host("localhost", 22, "ssh"));
    hosts.insert_group("ssh-group".into(), strings(&["broken-ssh", "ssh-localhost"]));
    hosts
}

#[test]
fn dry_run_shows_metadata_tasks_and_ensures() {
    let p = Plan::new(
        "test plan".into(),
        vec![
            PlannedTask::new(
                "test command".into(),
                strings(&["echo", "hello", "world!"]),
                vec![Ensure::ExeExists { exe: "echo".into() }],
                strings(&["ssh-group"]),
            ),
            PlannedTask::new(
                "create some file".into(),
                strings(&["touch", "/tmp/some-file"]),
                vec![Ensure::ExeExists { exe: "touch".into() }, Ensure::DirectoryExists { path: "/tmp".into() }],
                strings(&["ssh-group"]),
            ),
        ],
    );
    let lines = dry_run_lines(&p, &readme_hosts());
    assert_eq!(
        lines,
        strings(&[
            "*** plan: test plan ***\n",
            "* metadata",
            "** hosts:",
            "*** group: ssh-group",
            "**** broken-ssh: localhost:2222 (ssh)",
            "**** ssh-localhost: localhost:22 (ssh)",
            "** test command: echo hello world!",
            "*** ExeExists { exe: \"echo\" }",
            "** create some file: touch /tmp/some-file",
            "*** ExeExists { exe: \"touch\" }",
            "*** DirectoryExists { path: \"/tmp\" }",
        ])
    );
}

#[test]
fn dry_run_leaves_out_a_missing_host() {
    let mut hosts = HostConfig::default();
    hosts.insert_host("h".into(), host("localhost", 22, "ssh"));
    hosts.insert_group("g".into(), strings(&["ghost", "h"]));
    let lines = dry_run_lines(&plan(), &hosts);
    assert_eq!(
        lines,
        strings(&[
            "*** plan: test plan ***\n",
            "* metadata",
            "** hosts:",
            "*** group: g",
            "**** h: localhost:22 (ssh)",
            "** test command: echo hello world!",
            "** local only: true",
        ])
    );
}

#[test]
fn validation_lists_groups_and_hosts() {
    let cmd = PlanCommand::new();
    let hosts = readme_hosts();
    let (lines, res) = cmd.validate_report(&hosts);
    assert!(res.is_ok());
    assert_eq!(
        lines,
        strings(&[
            "* plan is valid.",
            "** hosts:",
            "*** group: ssh-group",
            "**** broken-ssh: localhost:2222 (ssh)",
            "**** ssh-localhost: localhost:22 (ssh)",
        ])
    );
    let (lines, res) =
        cmd.inspect_host_group(&hosts, &"g".to_string(), &strings(&["ssh-localhost", "missing", "broken-ssh"]));
    assert_eq!(res, Err(InspectError::HostNotFound));
    assert_eq!(lines, strings(&["*** group: g", "**** ssh-localhost: localhost:22 (ssh)"]));
    assert_eq!(InspectError::HostNotFound.message(), "Host not found");
}

#[test]
fn outcome_lines() {
    let p = plan();
    assert_eq!(completed_plan_line(&p, &"h".to_string(), 2), "*** completed plan: test plan for host: h: 2/2 ***");
    assert_eq!(failed_plan_line(&p, &"h".to_string(), 0), "*** failed plan: test plan for host: h: 0/2 ***");
}

#[test]
fn host_logs_are_prefixed() {
    let part = PartialLogStream::Next(strings(&["hello", ""]));
    assert_eq!(host_log_lines(&"h".to_string(), &part), Some(strings(&["h: hello", "h: "])));
    assert_eq!(host_log_lines(&"h".to_string(), &PartialLogStream::End), None);
}

#[test]
fn subcommands() {
    let cmd = PlanCommand::new();
    assert!(matches!(cmd.subcommand(Some("validate")), Ok(PlanSubcommand::Validate)));
    assert!(matches!(cmd.subcommand(Some("apply")), Ok(PlanSubcommand::Apply)));
    let e = cmd.subcommand(Some("nope")).unwrap_err();
    assert_eq!(e.message(), "Invalid subcommand `nope`.");
    let e = cmd.subcommand(None).unwrap_err();
    assert_eq!(e.message(), "No subcommand provided.");
}

#[test]
fn command_error_texts() {
    assert_eq!(
        CommandErrors::InputValidationFailure("name".into(), "^[a-z]+$".into()).message(),
        "Argument `name` failed validation `^[a-z]+$`"
    );
    assert_eq!(CommandErrors::RequiredUserInputMissing("file".into()).message(), "Required user input `file` is missing.");
    assert_eq!(CommandErrors::InvalidHttpMethod("PUTT".into()).message(), "Invalid HTTP method `PUTT`");
    assert_eq!(CommandErrors::PromptInteractionFailed("eof".into()).message(), "Prompt interaction failed.");
    assert_eq!(
        CommandErrors::InvalidNameFormat("ab".into()).message(),
        "Name must be at least 5 characters and contain only lowercase letters, numbers, and dashes (got: ab)."
    );
}

#[test]
fn reading_arguments() {
    let file = "plan.yaml".to_string();
    let r = read_argument_with_validator(Some(&file), "file", |_| Ok(()));
    assert_eq!(r.unwrap(), "plan.yaml");
    let r = read_argument_with_validator(None, "file", |_| Ok(()));
    assert!(matches!(r, Err(CommandErrors::RequiredUserInputMissing(id)) if id == "file"));
    let r = read_argument_with_validator(Some(&file), "file", |_| {
        Err(CommandErrors::InputValidationFailure("file".into(), "x".into()))
    });
    assert!(matches!(r, Err(CommandErrors::InputValidationFailure(_, _))));
}

#[test]
fn log_levels() {
    assert_eq!(log_level(false, 0), LogLevel::Error);
    assert_eq!(log_level(true, 0), LogLevel::Error);
    assert_eq!(log_level(true, 1), LogLevel::Warn);
    assert_eq!(log_level(false, 2), LogLevel::Info);
    assert_eq!(log_level(false, 3), LogLevel::Debug);
    assert_eq!(log_level(false, 9), LogLevel::Trace);
}

#[test]
fn reading_arguments_against_a_pattern() {
    let pattern = Pattern::new("^[a-z-]{5,}$").unwrap();
    assert_eq!(pattern.as_str(), "^[a-z-]{5,}$");
    let good = "my-name".to_string();
    let bad = "No".to_string();
    assert_eq!(read_argument_with_regex(Some(&good), "name", &pattern).unwrap(), "my-name");
    let r = read_argument_with_regex(Some(&bad), "name", &pattern);
    assert!(matches!(r, Err(CommandErrors::InputValidationFailure(id, p)) if id == "name" && p == "^[a-z-]{5,}$"));
    let r = read_argument_with_regex(None, "name", &pattern);
    assert!(matches!(r, Err(CommandErrors::RequiredUserInputMissing(id)) if id == "name"));
    assert!(validate_with_pattern(&good, "Name", &pattern).is_ok());
    assert!(matches!(
        validate_with_pattern(&bad, "Name", &pattern),
        Err(CommandErrors::InputValidationFailure(m, _)) if m == "Name"
    ));
    assert!(pattern.is_match("abcde"));
    assert!(!pattern.is_match("abc"));
}

#[test]
fn invalid_patterns_are_refused() {
    assert_eq!(Pattern::new("foo(bar").unwrap_err(), PatternError::Invalid);
}
