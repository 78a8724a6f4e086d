use libthere::plan::host::{default_ssh_port, Host, HostConfig};
use libthere::plan::visitor::{PlanningTaskVisitor, TaskVisitor};
use libthere::plan::{Ensure, Plan, PlanError, PlannedTask, Task, TaskSet};

fn strings(v: &[&str]) -> Vec<String> {
    v.iter().map(|s| s.to_string()).collect()
}

fn host(executor: &str) -> Host {
    Host::new("localhost".to_string(), 22, executor.to_string(), None)
}

#[test]
fn test_that_tasks_can_be_planned() {
    let mut taskset = TaskSet::new("test");
    taskset.add_task(Task::Command {
        name: "test".into(),
        command: "echo hello".into(),
        hosts: vec![],
    });
    let plan = taskset.plan().unwrap();
    assert_eq!(1, plan.blueprint().len());
    assert_eq!("test", plan.blueprint()[0].name());
    assert_eq!("echo hello", plan.blueprint()[0].command().join(" "));
}

#[test]
fn planning_a_command_checks_its_executable() {
    let mut taskset = TaskSet::new("p");
    taskset.add_task(Task::Command {
        name: "say".into(),
        command: "echo 'hello world'".into(),
        hosts: strings(&["a"]),
    });
    let plan = taskset.plan().unwrap();
    let t = &plan.blueprint()[0];
    assert_eq!(t.command(), &strings(&["echo", "hello world"]));
    assert!(matches!(&t.checks()[..], [Ensure::ExeExists { exe }] if exe == "echo"));
    assert_eq!(t.hosts(), &strings(&["a"]));
    assert_eq!(plan.name(), "p");
}

#[test]
fn planning_directories_and_files() {
    let mut taskset = TaskSet::new("files");
    taskset.add_task(Task::CreateDirectory {
        name: "dir".into(),
        path: "/tmp/d".into(),
        hosts: vec![],
    });
    taskset.add_task(Task::TouchFile {
        name: "file".into(),
        path: "/tmp/some-file".into(),
        hosts: vec![],
    });
    let plan = taskset.plan().unwrap();
    assert_eq!(plan.blueprint().len(), 2);
    let d = &plan.blueprint()[0];
    assert_eq!(d.command(), &strings(&["mkdir", "/tmp/d"]));
    assert!(matches!(&d.checks()[..], [Ensure::DirectoryDoesntExist { path }] if path == "/tmp/d"));
    let f = &plan.blueprint()[1];
    assert_eq!(f.command(), &strings(&["touch", "/tmp/some-file"]));
    assert!(matches!(&f.checks()[..],
        [Ensure::ExeExists { exe }, Ensure::DirectoryExists { path }] if exe == "touch" && path == "/tmp"));
}

#[test]
fn planning_stops_at_an_unclosed_quote() {
    let mut taskset = TaskSet::new("bad");
    taskset.add_task(Task::Command { name: "ok".into(), command: "true".into(), hosts: vec![] });
    taskset.add_task(Task::Command { name: "bad".into(), command: "echo 'oops".into(), hosts: vec![] });
    let r = taskset.plan();
    assert!(matches!(r, Err(PlanError::CommandParse)));
    assert_eq!(PlanError::CommandParse.message(), "missing closing quote");
}

#[test]
fn checked_planning_refuses_an_empty_command() {
    let mut taskset = TaskSet::new("empty");
    taskset.add_task(Task::Command { name: "e".into(), command: "   ".into(), hosts: vec![] });
    assert!(taskset.plan_checked().is_none());

    let mut root = TaskSet::new("root");
    root.add_task(Task::TouchFile { name: "r".into(), path: "/".into(), hosts: vec![] });
    assert!(root.plan_checked().is_none());

    let mut fine = TaskSet::new("fine");
    fine.add_task(Task::Command { name: "e".into(), command: "ls -la".into(), hosts: vec![] });
    let plan = fine.plan_checked().unwrap().unwrap();
    assert_eq!(plan.blueprint()[0].command(), &strings(&["ls", "-la"]));

    let mut after_error = TaskSet::new("after");
    after_error.add_task(Task::Command { name: "q".into(), command: "'".into(), hosts: vec![] });
    after_error.add_task(Task::Command { name: "e".into(), command: "".into(), hosts: vec![] });
    assert!(matches!(after_error.plan_checked(), Some(Err(PlanError::CommandParse))));
}

#[test]
fn visitor_keeps_planned_tasks_in_order() {
    let mut v = PlanningTaskVisitor::new("v");
    v.visit_task(&Task::Command { name: "one".into(), command: "a".into(), hosts: vec![] }).unwrap();
    v.visit_task(&Task::CreateDirectory { name: "two".into(), path: "/x".into(), hosts: vec![] }).unwrap();
    assert!(v.visit_task(&Task::Command { name: "three".into(), command: "\"".into(), hosts: vec![] }).is_err());
    assert_eq!(v.name(), "v");
    let names: Vec<&str> = v.plan().iter().map(|t| t.name().as_str()).collect();
    assert_eq!(names, vec!["one", "two"]);
}

#[test]
fn task_name_and_hosts() {
    let t = Task::TouchFile { name: "n".into(), path: "/p".into(), hosts: strings(&["h1", "g"]) };
    assert_eq!(t.name(), "n");
    assert_eq!(t.hosts(), strings(&["h1", "g"]));
}

fn sample_plan() -> Plan {
    Plan::new(
        "plan".into(),
        vec![
            PlannedTask::new("direct".into(), strings(&["true"]), vec![], strings(&["web1"])),
            PlannedTask::new("group".into(), strings(&["true"]), vec![], strings(&["web"])),
            PlannedTask::new("other".into(), strings(&["true"]), vec![], strings(&["db1"])),
        ],
    )
}

fn sample_hosts() -> HostConfig {
    let mut hosts = HostConfig::default();
    hosts.insert_host("web1".into(), host("ssh"));
    hosts.insert_host("web2".into(), host("local"));
    hosts.insert_group("web".into(), strings(&["web1", "web2"]));
    hosts
}

#[test]
fn plan_for_host_keeps_tasks_of_the_host_and_its_groups() {
    let plan = sample_plan();
    let hosts = sample_hosts();
    let p1 = plan.plan_for_host(&"web1".to_string(), &hosts);
    let names: Vec<&str> = p1.blueprint().iter().map(|t| t.name().as_str()).collect();
    assert_eq!(names, vec!["direct", "group"]);
    let p2 = plan.plan_for_host(&"web2".to_string(), &hosts);
    let names: Vec<&str> = p2.blueprint().iter().map(|t| t.name().as_str()).collect();
    assert_eq!(names, vec!["group"]);
    let p3 = plan.plan_for_host(&"nobody".to_string(), &hosts);
    assert!(p3.blueprint().is_empty());
    assert_eq!(p3.name(), "plan");
}

#[test]
fn plan_for_host_twice_is_plan_for_host_once() {
    let plan = sample_plan();
    let hosts = sample_hosts();
    let once = plan.plan_for_host(&"web1".to_string(), &hosts);
    let twice = once.plan_for_host(&"web1".to_string(), &hosts);
    let a: Vec<&str> = once.blueprint().iter().map(|t| t.name().as_str()).collect();
    let b: Vec<&str> = twice.blueprint().iter().map(|t| t.name().as_str()).collect();
    assert_eq!(a, b);
}

#[test]
fn host_config_reads_back_what_was_stored() {
    let mut hosts = HostConfig::default();
    hosts.insert_host("a".into(), host("ssh"));
    hosts.insert_host("b".into(), host("local"));
    hosts.insert_host("a".into(), host("simple"));
    assert_eq!(hosts.hosts().len(), 2);
    assert_eq!(hosts.get_host(&"a".to_string()).unwrap().executor(), "simple");
    assert_eq!(hosts.get_host(&"b".to_string()).unwrap().executor(), "local");
    assert!(hosts.get_host(&"c".to_string()).is_none());
    hosts.insert_group("g".into(), strings(&["a"]));
    hosts.insert_group("g".into(), strings(&["a", "b"]));
    assert_eq!(hosts.groups().len(), 1);
    assert_eq!(hosts.groups()[0].1, strings(&["a", "b"]));
}

#[test]
fn real_remote_user_defaults_to_root() {
    assert_eq!(host("ssh").real_remote_user(), "root");
    let h = Host::new("h".into(), 2222, "ssh".into(), Some("deploy".into()));
    assert_eq!(h.real_remote_user(), "deploy");
    assert_eq!(*h.port(), 2222);
    assert_eq!(default_ssh_port(), 22);
}

#[test]
fn tasks_accept_the_planning_visitor() {
    let mut visitor = PlanningTaskVisitor::new("v");
    let task = Task::CreateDirectory { name: "mk".into(), path: "/tmp/newdir".into(), hosts: vec![] };
    assert!(task.accept(&mut visitor).is_ok());
    assert_eq!(visitor.plan().len(), 1);
    assert_eq!(visitor.plan()[0].command(), &strings(&["mkdir", "/tmp/newdir"]));
    assert!(matches!(&visitor.plan()[0].checks()[..],
        [Ensure::DirectoryDoesntExist { path }] if path == "/tmp/newdir"));
    let bad = Task::Command { name: "b".into(), command: "echo 'x".into(), hosts: vec![] };
    assert!(matches!(bad.accept(&mut visitor), Err(PlanError::CommandParse)));
    assert_eq!(visitor.plan().len(), 1);
}
