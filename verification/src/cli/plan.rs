//! The `plan` command: its subcommands, and what it prints while validating
//! or applying a plan.

use vstd::prelude::*;
use vstd::string::StringExecFns;
use crate::text::view_strings;
use crate::text::concat;
use crate::text::decimal;
use crate::text::decimal_of;
use crate::text::join;
use crate::text::join_with;
use crate::plan::Plan;
use crate::plan::PlanView;
use crate::plan::PlannedTaskView;
use crate::plan::host::HostConfig;
use crate::plan::host::HostConfigView;
use crate::plan::host::HostView;
use crate::plan::host::lookup;
use crate::executor::PartialLogStream;
use crate::executor::PartialLogStreamView;
use crate::executor::ssh::ensure_debug;
use crate::executor::ssh::ensure_debug_of;
use crate::plan::EnsureView;
use super::CommandErrors;
use super::CommandErrorsView;

verus! {

/// The executor a host is applied to with.
#[derive(Debug, Clone, Copy, PartialEq, Eq, Structural)]
pub enum ExecutorType {
    Local,
    Ssh,
}

/// The executor named by a host's configuration: `simple` and `local` run
/// commands on this machine, `ssh` over SSH; other names are unknown.
pub open spec fn executor_type_of(name: Seq<char>) -> Option<ExecutorType> {
    if name == "simple"@ || name == "local"@ {
        Some(ExecutorType::Local)
    } else if name == "ssh"@ {
        Some(ExecutorType::Ssh)
    } else {
        None
    }
}

/// The executor named by a host's configuration.
pub fn executor_type(name: &String) -> (r: Option<ExecutorType>)
    ensures
        r == executor_type_of(name@),
{
    if *name == String::from_str("simple") || *name == String::from_str("local") {
        Some(ExecutorType::Local)
    } else if *name == String::from_str("ssh") {
        Some(ExecutorType::Ssh)
    } else {
        None
    }
}


/// The `plan` command.
#[derive(Debug)]
pub struct PlanCommand;

impl PlanCommand {
    /// The command.
    pub fn new() -> (r: Self) {
        PlanCommand
    }
}

/// A subcommand of the `plan` command.
#[derive(Debug, Clone, Copy, PartialEq, Eq, Structural)]
pub enum PlanSubcommand {
    Validate,
    Apply,
}

/// The subcommand named on the command line: `validate` and `apply` are
/// known; another name is an invalid subcommand, and no name is an error.
pub open spec fn plan_subcommand_of(name: Option<Seq<char>>) -> Result<PlanSubcommand, CommandErrorsView> {
    match name {
        Some(n) => if n == "validate"@ {
            Ok(PlanSubcommand::Validate)
        } else if n == "apply"@ {
            Ok(PlanSubcommand::Apply)
        } else {
            Err(CommandErrorsView::InvalidSubcommand(n))
        },
        None => Err(CommandErrorsView::NoSubcommandProvided),
    }
}

impl PlanCommand {
    /// Chooses the subcommand to run.
    pub fn subcommand(&self, name: Option<&str>) -> (r: Result<PlanSubcommand, CommandErrors>)
        ensures
            match r {
                Ok(c) => plan_subcommand_of(
                    match name {
                        Some(n) => Some(n@),
                        None => None,
                    },
                ) == Ok::<PlanSubcommand, CommandErrorsView>(c),
                Err(e) => plan_subcommand_of(
                    match name {
                        Some(n) => Some(n@),
                        None => None,
                    },
                ) == Err::<PlanSubcommand, CommandErrorsView>(e@),
            },
    {
        match name {
            Some(n) => {
                let given = String::from_str(n);
                if given == String::from_str("validate") {
                    Ok(PlanSubcommand::Validate)
                } else if given == String::from_str("apply") {
                    Ok(PlanSubcommand::Apply)
                } else {
                    Err(CommandErrors::InvalidSubcommand(given))
                }
            },
            None => Err(CommandErrors::NoSubcommandProvided),
        }
    }
}

/// The line shown for a host of a group.
pub open spec fn host_line(hostname: Seq<char>, h: HostView) -> Seq<char> {
    "**** "@ + hostname + ": "@ + h.host + ":"@ + decimal_of(h.port as nat) + " ("@ + h.executor + ")"@
}

/// The lines shown for a group: its name, then each of its hosts, up to the
/// first host that is not configured; the flag says whether all were.
pub open spec fn inspect_lines(hosts: Seq<(Seq<char>, HostView)>, group: Seq<char>, members: Seq<Seq<char>>) -> (Seq<Seq<char>>, bool)
    decreases members.len(),
{
    if members.len() == 0 {
        (seq!["*** group: "@ + group], true)
    } else {
        let (lines, ok) = inspect_lines(hosts, group, members.drop_last());
        if !ok {
            (lines, false)
        } else {
            match lookup(hosts, members.last()) {
                Some(h) => (lines.push(host_line(members.last(), h)), true),
                None => (lines, false),
            }
        }
    }
}

/// Why a group could not be shown.
#[derive(Debug, Clone, Copy, PartialEq, Eq, Structural)]
pub enum InspectError {
    /// A host of the group is not configured.
    HostNotFound,
}

impl InspectError {
    /// The text of the error.
    pub fn message(&self) -> (r: String)
        ensures
            r@ == "Host not found"@,
    {
        String::from_str("Host not found")
    }
}

fn host_line_exec(hostname: &String, h: &crate::plan::host::Host) -> (r: String)
    ensures
        r@ == host_line(hostname@, h@),
{
    let mut line = concat("**** ", hostname.as_str());
    line.append(": ");
    line.append(h.host().as_str());
    line.append(":");
    line.append(decimal(*h.port() as u64).as_str());
    line.append(" (");
    line.append(h.executor().as_str());
    line.append(")");
    line
}

/// The lines shown for a group of hosts, and whether every host of it is
/// configured.
fn inspect_group(hosts: &HostConfig, group_name: &String, group_hosts: &Vec<String>) -> (r: (Vec<String>, Result<(), InspectError>))
    ensures
        (view_strings(r.0@), r.1 is Ok) == inspect_lines(hosts@.hosts, group_name@, view_strings(group_hosts@)),
{
    let ghost ms = view_strings(group_hosts@);
    let mut lines: Vec<String> = Vec::new();
    lines.push(concat("*** group: ", group_name.as_str()));
    assert(view_strings(lines@) =~= seq!["*** group: "@ + group_name@]);
    assert(ms.take(0) =~= Seq::<Seq<char>>::empty());
    let mut i: usize = 0;
    while i < group_hosts.len()
        invariant
            i <= group_hosts@.len(),
            ms == view_strings(group_hosts@),
            (view_strings(lines@), true) == inspect_lines(hosts@.hosts, group_name@, ms.take(i as int)),
        decreases group_hosts.len() - i,
    {
        assert(ms.take(i + 1).drop_last() =~= ms.take(i as int));
        assert(ms.take(i + 1).last() == group_hosts@[i as int]@);
        let hostname = &group_hosts[i];
        match hosts.get_host(hostname) {
            Some(h) => {
                let ghost before = view_strings(lines@);
                lines.push(host_line_exec(hostname, h));
                assert(view_strings(lines@) =~= before.push(host_line(hostname@, h@)));
            },
            None => {
                proof {
                    lemma_inspect_stops(hosts@.hosts, group_name@, ms, i as int + 1);
                }
                return (lines, Err(InspectError::HostNotFound));
            },
        }
        i = i + 1;
    }
    assert(ms.take(group_hosts.len() as int) =~= ms);
    (lines, Ok(()))
}

impl PlanCommand {
    /// The lines shown for a group of hosts, and whether every host of it is
    /// configured; the lines stop at the first host that is not.
    pub fn inspect_host_group(&self, hosts: &HostConfig, group_name: &String, group_hosts: &Vec<String>) -> (r: (Vec<String>, Result<(), InspectError>))
        ensures
            (view_strings(r.0@), r.1 is Ok) == inspect_lines(hosts@.hosts, group_name@, view_strings(group_hosts@)),
    {
        inspect_group(hosts, group_name, group_hosts)
    }
}

/// Once a host of a group is missing, the lines shown stay as they are.
proof fn lemma_inspect_stops(hosts: Seq<(Seq<char>, HostView)>, group: Seq<char>, members: Seq<Seq<char>>, i: int)
    requires
        0 <= i <= members.len(),
        !inspect_lines(hosts, group, members.take(i)).1,
    ensures
        inspect_lines(hosts, group, members) == inspect_lines(hosts, group, members.take(i)),
    decreases members.len(),
{
    if i == members.len() {
        assert(members.take(i) =~= members);
    } else {
        assert(members.drop_last().take(i) =~= members.take(i));
        lemma_inspect_stops(hosts, group, members.drop_last(), i);
    }
}

/// The line printed when a plan was applied to a host.
pub open spec fn completed_line(plan_name: Seq<char>, host: Seq<char>, tasks_completed: nat, n: nat) -> Seq<char> {
    "*** completed plan: "@ + plan_name + " for host: "@ + host + ": "@ + decimal_of(tasks_completed) + "/"@
        + decimal_of(n) + " ***"@
}

/// The line printed when applying a plan to a host failed.
pub open spec fn failed_line(plan_name: Seq<char>, host: Seq<char>, tasks_completed: nat, n: nat) -> Seq<char> {
    "*** failed plan: "@ + plan_name + " for host: "@ + host + ": "@ + decimal_of(tasks_completed) + "/"@
        + decimal_of(n) + " ***"@
}

fn outcome_line(head: &str, plan_name: &String, host: &String, tasks_completed: u32, n: usize) -> (r: String)
    ensures
        r@ == head@ + plan_name@ + " for host: "@ + host@ + ": "@ + decimal_of(tasks_completed as nat) + "/"@
            + decimal_of(n as nat) + " ***"@,
{
    let mut line = concat(head, plan_name.as_str());
    line.append(" for host: ");
    line.append(host.as_str());
    line.append(": ");
    line.append(decimal(tasks_completed as u64).as_str());
    line.append("/");
    line.append(decimal(n as u64).as_str());
    line.append(" ***");
    line
}

/// The line printed when the plan was applied to a host, out of the tasks of
/// the whole plan.
pub fn completed_plan_line(plan: &Plan, host: &String, tasks_completed: u32) -> (r: String)
    ensures
        r@ == completed_line(plan@.name, host@, tasks_completed as nat, plan@.blueprint.len()),
{
    outcome_line("*** completed plan: ", plan.name(), host, tasks_completed, plan.blueprint().len())
}

/// The line printed when applying the plan to a host failed, out of the
/// tasks of the whole plan.
pub fn failed_plan_line(plan: &Plan, host: &String, tasks_completed: u32) -> (r: String)
    ensures
        r@ == failed_line(plan@.name, host@, tasks_completed as nat, plan@.blueprint.len()),
{
    outcome_line("*** failed plan: ", plan.name(), host, tasks_completed, plan.blueprint().len())
}

/// What is printed for a part of a host's log stream: each log prefixed by
/// the host's name, or nothing more after the end of the stream.
pub open spec fn host_log_lines_of(hostname: Seq<char>, part: PartialLogStreamView) -> Option<Seq<Seq<char>>> {
    match part {
        PartialLogStreamView::Next(logs) => Some(logs.map_values(|l: Seq<char>| hostname + ": "@ + l)),
        PartialLogStreamView::End => None,
    }
}

/// The lines printed for a part of a host's log stream; `None` at the end.
pub fn host_log_lines(hostname: &String, part: &PartialLogStream) -> (r: Option<Vec<String>>)
    ensures
        match r {
            Some(v) => host_log_lines_of(hostname@, part@) == Some(view_strings(v@)),
            None => host_log_lines_of(hostname@, part@) is None,
        },
{
    match part {
        PartialLogStream::Next(logs) => {
            let mut lines: Vec<String> = Vec::new();
            let mut i: usize = 0;
            while i < logs.len()
                invariant
                    i <= logs@.len(),
                    lines@.len() == i,
                    forall|k: int| 0 <= k < i ==> lines@[k]@ == hostname@ + ": "@ + logs@[k]@,
                decreases logs.len() - i,
            {
                let mut line = concat(hostname.as_str(), ": ");
                line.append(logs[i].as_str());
                lines.push(line);
                i = i + 1;
            }
            assert(view_strings(lines@) =~= view_strings(logs@).map_values(|l: Seq<char>| hostname@ + ": "@ + l));
            Some(lines)
        },
        PartialLogStream::End => None,
    }
}

/// The lines shown for the groups: each group with its hosts; the flag says
/// whether every host of every group is configured, and the lines stop at
/// the first that is not.
pub open spec fn groups_lines_of(hosts: HostConfigView, groups: Seq<(Seq<char>, Seq<Seq<char>>)>) -> (Seq<Seq<char>>, bool)
    decreases groups.len(),
{
    if groups.len() == 0 {
        (seq![], true)
    } else {
        let (lines, ok) = groups_lines_of(hosts, groups.drop_last());
        if !ok {
            (lines, false)
        } else {
            let (more, ok2) = inspect_lines(hosts.hosts, groups.last().0, groups.last().1);
            (lines + more, ok2)
        }
    }
}

/// What validating prints for a host configuration: that the plan is valid,
/// then each group with its hosts; the flag says whether every host of every
/// group is configured, and the lines stop at the first that is not.
pub open spec fn validate_lines_of(hosts: HostConfigView, groups: Seq<(Seq<char>, Seq<Seq<char>>)>) -> (Seq<Seq<char>>, bool) {
    let (lines, ok) = groups_lines_of(hosts, groups);
    (seq!["* plan is valid."@, "** hosts:"@] + lines, ok)
}

/// The lines a dry run shows for a task: its name and command, then each of
/// its ensures.
pub open spec fn dry_task_lines(t: PlannedTaskView) -> Seq<Seq<char>> {
    seq!["** "@ + t.name + ": "@ + join_with(t.command, " "@)] + t.checks.map_values(
        |e: EnsureView| "*** "@ + ensure_debug_of(e),
    )
}

/// The lines a dry run shows for the tasks, in order.
pub open spec fn dry_tasks_lines(tasks: Seq<PlannedTaskView>) -> Seq<Seq<char>>
    decreases tasks.len(),
{
    if tasks.len() == 0 {
        seq![]
    } else {
        dry_tasks_lines(tasks.drop_last()) + dry_task_lines(tasks.last())
    }
}

/// The lines a dry run shows for a group: its name, then each of its hosts
/// that is configured (a member that is not is left out).
pub open spec fn dry_group_lines(hosts: Seq<(Seq<char>, HostView)>, group: Seq<char>, members: Seq<Seq<char>>) -> Seq<Seq<char>>
    decreases members.len(),
{
    if members.len() == 0 {
        seq!["*** group: "@ + group]
    } else {
        let prev = dry_group_lines(hosts, group, members.drop_last());
        match lookup(hosts, members.last()) {
            Some(h) => prev.push(host_line(members.last(), h)),
            None => prev,
        }
    }
}

/// The lines a dry run shows for the groups, in order.
pub open spec fn dry_groups_lines(hosts: HostConfigView, groups: Seq<(Seq<char>, Seq<Seq<char>>)>) -> Seq<Seq<char>>
    decreases groups.len(),
{
    if groups.len() == 0 {
        seq![]
    } else {
        dry_groups_lines(hosts, groups.drop_last()) + dry_group_lines(hosts.hosts, groups.last().0, groups.last().1)
    }
}

/// What a dry run prints: the plan's name, then its metadata (the groups of
/// the host configuration with their configured hosts), then each task with
/// its command and its ensures.
pub open spec fn dry_run_lines_of(p: PlanView, hosts: HostConfigView) -> Seq<Seq<char>> {
    seq!["*** plan: "@ + p.name + " ***\n"@, "* metadata"@, "** hosts:"@] + dry_groups_lines(hosts, hosts.groups)
        + dry_tasks_lines(p.blueprint)
}

/// The lines shown for every group of the configuration, and whether every
/// host of every group is configured.
fn groups_lines(hosts: &HostConfig) -> (r: (Vec<String>, Result<(), InspectError>))
    ensures
        (view_strings(r.0@), r.1 is Ok) == groups_lines_of(hosts@, hosts@.groups),
{
    let ghost gs = hosts@.groups;
    let groups = hosts.groups();
    let mut lines: Vec<String> = Vec::new();
    assert(view_strings(lines@) =~= Seq::<Seq<char>>::empty());
    assert(gs.take(0) =~= Seq::<(Seq<char>, Seq<Seq<char>>)>::empty());
    let mut g: usize = 0;
    while g < groups.len()
        invariant
            g <= groups@.len(),
            gs == hosts@.groups,
            gs == crate::plan::host::view_group_entries(groups@),
            (view_strings(lines@), true) == groups_lines_of(hosts@, gs.take(g as int)),
        decreases groups.len() - g,
    {
        assert(gs.take(g + 1).drop_last() =~= gs.take(g as int));
        assert(gs.take(g + 1).last() == gs[g as int]);
        let (more, res) = inspect_group(hosts, &groups[g].0, &groups[g].1);
        let ghost before = view_strings(lines@);
        let ghost added = view_strings(more@);
        let mut more = more;
        lines.append(&mut more);
        assert(view_strings(lines@) =~= before + added);
        if res.is_err() {
            proof {
                lemma_groups_stop(hosts@, gs, g as int + 1);
            }
            return (lines, res);
        }
        g = g + 1;
    }
    assert(gs.take(groups.len() as int) =~= gs);
    (lines, Ok(()))
}

impl PlanCommand {
    /// The lines validating prints once the plan is valid, and whether every
    /// host of every group is configured.
    pub fn validate_report(&self, hosts: &HostConfig) -> (r: (Vec<String>, Result<(), InspectError>))
        ensures
            (view_strings(r.0@), r.1 is Ok) == validate_lines_of(hosts@, hosts@.groups),
    {
        let mut lines: Vec<String> = Vec::new();
        lines.push(String::from_str("* plan is valid."));
        lines.push(String::from_str("** hosts:"));
        let ghost head = view_strings(lines@);
        assert(head =~= seq!["* plan is valid."@, "** hosts:"@]);
        let (more, res) = groups_lines(hosts);
        let ghost added = view_strings(more@);
        let mut more = more;
        lines.append(&mut more);
        assert(view_strings(lines@) =~= head + added);
        (lines, res)
    }
}

/// The lines a dry run shows for a task.
fn dry_task_lines_exec(t: &crate::plan::PlannedTask) -> (r: Vec<String>)
    ensures
        view_strings(r@) == dry_task_lines(t@),
{
    let mut head = concat("** ", t.name().as_str());
    head.append(": ");
    head.append(join(t.command(), " ").as_str());
    let mut lines: Vec<String> = Vec::new();
    lines.push(head);
    let checks = t.checks();
    let ghost cs = t@.checks;
    let mut i: usize = 0;
    while i < checks.len()
        invariant
            i <= checks@.len(),
            cs == crate::plan::view_ensures(checks@),
            lines@.len() == i + 1,
            lines@[0]@ == "** "@ + t@.name + ": "@ + join_with(t@.command, " "@),
            forall|k: int| 0 <= k < i ==> lines@[k + 1]@ == "*** "@ + ensure_debug_of(cs[k]),
        decreases checks.len() - i,
    {
        lines.push(concat("*** ", ensure_debug(&checks[i]).as_str()));
        i = i + 1;
    }
    assert(view_strings(lines@) =~= dry_task_lines(t@));
    lines
}

/// The lines a dry run shows for a group.
fn dry_group_exec(hosts: &HostConfig, group_name: &String, group_hosts: &Vec<String>) -> (r: Vec<String>)
    ensures
        view_strings(r@) == dry_group_lines(hosts@.hosts, group_name@, view_strings(group_hosts@)),
{
    let ghost ms = view_strings(group_hosts@);
    let mut lines: Vec<String> = Vec::new();
    lines.push(concat("*** group: ", group_name.as_str()));
    assert(view_strings(lines@) =~= seq!["*** group: "@ + group_name@]);
    assert(ms.take(0) =~= Seq::<Seq<char>>::empty());
    let mut i: usize = 0;
    while i < group_hosts.len()
        invariant
            i <= group_hosts@.len(),
            ms == view_strings(group_hosts@),
            view_strings(lines@) == dry_group_lines(hosts@.hosts, group_name@, ms.take(i as int)),
        decreases group_hosts.len() - i,
    {
        assert(ms.take(i + 1).drop_last() =~= ms.take(i as int));
        assert(ms.take(i + 1).last() == group_hosts@[i as int]@);
        let hostname = &group_hosts[i];
        match hosts.get_host(hostname) {
            Some(h) => {
                let ghost before = view_strings(lines@);
                lines.push(host_line_exec(hostname, h));
                assert(view_strings(lines@) =~= before.push(host_line(hostname@, h@)));
            },
            None => {},
        }
        i = i + 1;
    }
    assert(ms.take(group_hosts.len() as int) =~= ms);
    lines
}

/// The lines a dry run prints for the plan and the host configuration.
pub fn dry_run_lines(plan: &Plan, hosts: &HostConfig) -> (r: Vec<String>)
    ensures
        view_strings(r@) == dry_run_lines_of(plan@, hosts@),
{
    let mut lines: Vec<String> = Vec::new();
    let mut title = concat("*** plan: ", plan.name().as_str());
    title.append(" ***\n");
    lines.push(title);
    lines.push(String::from_str("* metadata"));
    lines.push(String::from_str("** hosts:"));
    let ghost top = view_strings(lines@);
    assert(top =~= seq!["*** plan: "@ + plan@.name + " ***\n"@, "* metadata"@, "** hosts:"@]);
    let groups = hosts.groups();
    let ghost gs = hosts@.groups;
    assert(gs.take(0) =~= Seq::<(Seq<char>, Seq<Seq<char>>)>::empty());
    assert(top + dry_groups_lines(hosts@, gs.take(0)) =~= top);
    let mut g: usize = 0;
    while g < groups.len()
        invariant
            g <= groups@.len(),
            gs == hosts@.groups,
            gs == crate::plan::host::view_group_entries(groups@),
            view_strings(lines@) == top + dry_groups_lines(hosts@, gs.take(g as int)),
        decreases groups.len() - g,
    {
        assert(gs.take(g + 1).drop_last() =~= gs.take(g as int));
        assert(gs.take(g + 1).last() == gs[g as int]);
        let more = dry_group_exec(hosts, &groups[g].0, &groups[g].1);
        let ghost before = view_strings(lines@);
        let ghost added = view_strings(more@);
        let mut more = more;
        lines.append(&mut more);
        assert(view_strings(lines@) =~= before + added);
        assert(top + dry_groups_lines(hosts@, gs.take(g + 1)) =~= top + dry_groups_lines(hosts@, gs.take(g as int)) + added);
        g = g + 1;
    }
    assert(gs.take(groups.len() as int) =~= gs);
    let ghost head = view_strings(lines@);
    let bp = plan.blueprint();
    let ghost tasks = plan@.blueprint;
    assert(tasks.take(0) =~= Seq::<PlannedTaskView>::empty());
    assert(head + dry_tasks_lines(tasks.take(0)) =~= head);
    let mut i: usize = 0;
    while i < bp.len()
        invariant
            i <= bp@.len(),
            tasks == crate::plan::view_planned(bp@),
            view_strings(lines@) == head + dry_tasks_lines(tasks.take(i as int)),
        decreases bp.len() - i,
    {
        assert(tasks.take(i + 1).drop_last() =~= tasks.take(i as int));
        assert(tasks.take(i + 1).last() == bp@[i as int]@);
        let more = dry_task_lines_exec(&bp[i]);
        let ghost before = view_strings(lines@);
        let ghost added = view_strings(more@);
        let mut more = more;
        lines.append(&mut more);
        assert(view_strings(lines@) =~= before + added);
        assert(head + dry_tasks_lines(tasks.take(i + 1)) =~= head + dry_tasks_lines(tasks.take(i as int)) + added);
        i = i + 1;
    }
    assert(tasks.take(bp.len() as int) =~= tasks);
    lines
}

/// Once a group has a missing host, the lines shown for the groups stay as
/// they are.
proof fn lemma_groups_stop(hosts: HostConfigView, groups: Seq<(Seq<char>, Seq<Seq<char>>)>, g: int)
    requires
        0 <= g <= groups.len(),
        !groups_lines_of(hosts, groups.take(g)).1,
    ensures
        groups_lines_of(hosts, groups) == groups_lines_of(hosts, groups.take(g)),
    decreases groups.len(),
{
    if g == groups.len() {
        assert(groups.take(g) =~= groups);
    } else {
        assert(groups.drop_last().take(g) =~= groups.take(g));
        lemma_groups_stop(hosts, groups.drop_last(), g);
    }
}
} // verus!
