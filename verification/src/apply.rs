//! Which hosts a plan is applied to: for every group, for every host in it,
//! the plan narrowed to the host, skipped when it has no task, else paired
//! with the host's configuration (and, for the command line, its executor).

use vstd::prelude::*;
use vstd::string::StringExecFns;
use crate::text::clone_string;
use crate::text::concat;
use crate::plan::Plan;
use crate::plan::PlanView;
use crate::plan::plan_for_host_of;
use crate::plan::host::Host;
use crate::plan::host::HostView;
use crate::plan::host::HostConfig;
use crate::plan::host::HostConfigView;
use crate::plan::host::lookup;
use crate::cli::plan::ExecutorType;
use crate::cli::plan::executor_type_of;
use crate::cli::plan::executor_type;

verus! {

/// A host a plan is applied to.
#[derive(Debug)]
pub struct HostJob {
    pub hostname: String,
    pub plan: Plan,
    pub host: Host,
    pub executor: Option<ExecutorType>,
}

/// The value of a [`HostJob`].
pub struct HostJobView {
    pub hostname: Seq<char>,
    pub plan: PlanView,
    pub host: HostView,
    pub executor: Option<ExecutorType>,
}

impl View for HostJob {
    type V = HostJobView;

    open spec fn view(&self) -> HostJobView {
        HostJobView { hostname: self.hostname@, plan: self.plan@, host: self.host@, executor: self.executor }
    }
}

/// Why a plan could not be applied.
#[derive(Debug)]
pub enum ScheduleError {
    /// A host with tasks is not in the host map.
    HostNotFound(String),
    /// A host names an executor that does not exist.
    UnknownExecutor(String),
}

/// The value of a [`ScheduleError`].
pub enum ScheduleErrorView {
    HostNotFound(Seq<char>),
    UnknownExecutor(Seq<char>),
}

impl View for ScheduleError {
    type V = ScheduleErrorView;

    open spec fn view(&self) -> ScheduleErrorView {
        match self {
            ScheduleError::HostNotFound(h) => ScheduleErrorView::HostNotFound(h@),
            ScheduleError::UnknownExecutor(e) => ScheduleErrorView::UnknownExecutor(e@),
        }
    }
}

impl ScheduleError {
    /// The text of the error as the command line reports it.
    pub fn cli_message(&self) -> (r: String)
        ensures
            r@ == match self@ {
                ScheduleErrorView::HostNotFound(h) => "couldn't find host "@ + h,
                ScheduleErrorView::UnknownExecutor(e) => "unknown executor type: "@ + e,
            },
    {
        match self {
            ScheduleError::HostNotFound(h) => concat("couldn't find host ", h.as_str()),
            ScheduleError::UnknownExecutor(e) => concat("unknown executor type: ", e.as_str()),
        }
    }

    /// The text of the error as the controller reports it.
    pub fn controller_message(&self) -> (r: String)
        ensures
            r@ == match self@ {
                ScheduleErrorView::HostNotFound(h) => "hostname not in host map: "@ + h,
                ScheduleErrorView::UnknownExecutor(e) => "unknown executor type: "@ + e,
            },
    {
        match self {
            ScheduleError::HostNotFound(h) => concat("hostname not in host map: ", h.as_str()),
            ScheduleError::UnknownExecutor(e) => concat("unknown executor type: ", e.as_str()),
        }
    }
}

/// The hosts a plan is applied to, the lines printed while they are chosen,
/// and the error that stopped the choice, if any.
#[derive(Debug)]
pub struct Schedule {
    pub lines: Vec<String>,
    pub jobs: Vec<HostJob>,
    pub error: Option<ScheduleError>,
}

/// The value of a [`Schedule`].
pub struct ScheduleView {
    pub lines: Seq<Seq<char>>,
    pub jobs: Seq<HostJobView>,
    pub error: Option<ScheduleErrorView>,
}

/// The views of a sequence of jobs.
pub open spec fn view_jobs(v: Seq<HostJob>) -> Seq<HostJobView> {
    v.map_values(|j: HostJob| j@)
}

/// The view of an optional error.
pub open spec fn view_error(e: Option<ScheduleError>) -> Option<ScheduleErrorView> {
    match e {
        Some(e) => Some(e@),
        None => None,
    }
}

impl View for Schedule {
    type V = ScheduleView;

    open spec fn view(&self) -> ScheduleView {
        ScheduleView {
            lines: crate::text::view_strings(self.lines@),
            jobs: view_jobs(self.jobs@),
            error: view_error(self.error),
        }
    }
}

/// The line printed before the hosts of a group.
pub open spec fn group_line(group: Seq<char>) -> Seq<char> {
    "*** applying plan to group: "@ + group + " ***"@
}

/// The line printed for a host the plan is applied to.
pub open spec fn prepared_line(hostname: Seq<char>) -> Seq<char> {
    "*** prepared plan for host: "@ + hostname
}

/// The line printed for a host without tasks.
pub open spec fn skipping_line(hostname: Seq<char>) -> Seq<char> {
    "*** skipping host, no tasks: "@ + hostname
}

/// The schedule after considering one more host.
pub open spec fn schedule_host(st: ScheduleView, plan: PlanView, hosts: HostConfigView, hostname: Seq<char>, resolve: bool) -> ScheduleView {
    if st.error is Some {
        st
    } else {
        let hp = plan_for_host_of(plan, hostname, hosts);
        if hp.blueprint.len() == 0 {
            ScheduleView { lines: st.lines.push(skipping_line(hostname)), ..st }
        } else {
            match lookup(hosts.hosts, hostname) {
                None => ScheduleView { error: Some(ScheduleErrorView::HostNotFound(hostname)), ..st },
                Some(h) => {
                    if resolve && executor_type_of(h.executor) is None {
                        ScheduleView { error: Some(ScheduleErrorView::UnknownExecutor(h.executor)), ..st }
                    } else {
                        let job = HostJobView {
                            hostname: hostname,
                            plan: hp,
                            host: h,
                            executor: if resolve { executor_type_of(h.executor) } else { None },
                        };
                        ScheduleView { lines: st.lines.push(prepared_line(hostname)), jobs: st.jobs.push(job), ..st }
                    }
                },
            }
        }
    }
}

/// The schedule after considering the hosts of a group, in order.
pub open spec fn schedule_members(st: ScheduleView, plan: PlanView, hosts: HostConfigView, members: Seq<Seq<char>>, resolve: bool) -> ScheduleView
    decreases members.len(),
{
    if members.len() == 0 {
        st
    } else {
        schedule_host(schedule_members(st, plan, hosts, members.drop_last(), resolve), plan, hosts, members.last(), resolve)
    }
}

/// The schedule after considering the groups, in order; a group is
/// announced by a line before its hosts, unless an error already stopped the
/// choice.
pub open spec fn schedule_groups(plan: PlanView, hosts: HostConfigView, groups: Seq<(Seq<char>, Seq<Seq<char>>)>, resolve: bool) -> ScheduleView
    decreases groups.len(),
{
    if groups.len() == 0 {
        ScheduleView { lines: seq![], jobs: seq![], error: None }
    } else {
        let st = schedule_groups(plan, hosts, groups.drop_last(), resolve);
        if st.error is Some {
            st
        } else {
            schedule_members(
                ScheduleView { lines: st.lines.push(group_line(groups.last().0)), ..st },
                plan,
                hosts,
                groups.last().1,
                resolve,
            )
        }
    }
}

/// Once an error stopped the choice, considering more hosts changes nothing.
proof fn lemma_members_after_error(st: ScheduleView, plan: PlanView, hosts: HostConfigView, members: Seq<Seq<char>>, resolve: bool)
    requires
        st.error is Some,
    ensures
        schedule_members(st, plan, hosts, members, resolve) == st,
    decreases members.len(),
{
    if members.len() > 0 {
        lemma_members_after_error(st, plan, hosts, members.drop_last(), resolve);
    }
}

fn schedule_one(st: &mut Schedule, plan: &Plan, hosts: &HostConfig, hostname: &String, resolve: bool)
    requires
        old(st)@.error is None,
    ensures
        final(st)@ == schedule_host(old(st)@, plan@, hosts@, hostname@, resolve),
{
    let hp = plan.plan_for_host(hostname, hosts);
    if hp.blueprint().len() == 0 {
        let ghost before = crate::text::view_strings(st.lines@);
        st.lines.push(concat("*** skipping host, no tasks: ", hostname.as_str()));
        assert(crate::text::view_strings(st.lines@) =~= before.push(skipping_line(hostname@)));
        return;
    }
    let host = match hosts.get_host(hostname) {
        Some(h) => h,
        None => {
            st.error = Some(ScheduleError::HostNotFound(clone_string(hostname)));
            return;
        },
    };
    let executor = if resolve {
        match executor_type(host.executor()) {
            Some(t) => Some(t),
            None => {
                st.error = Some(ScheduleError::UnknownExecutor(clone_string(host.executor())));
                return;
            },
        }
    } else {
        None
    };
    let job = HostJob { hostname: clone_string(hostname), plan: hp, host: host.clone(), executor };
    let ghost jv = job@;
    let ghost before_jobs = view_jobs(st.jobs@);
    let ghost before_lines = crate::text::view_strings(st.lines@);
    st.jobs.push(job);
    st.lines.push(concat("*** prepared plan for host: ", hostname.as_str()));
    assert(view_jobs(st.jobs@) =~= before_jobs.push(jv));
    assert(crate::text::view_strings(st.lines@) =~= before_lines.push(prepared_line(hostname@)));
}

/// Chooses the hosts a plan is applied to: for every group in order, for
/// every host of the group in order, the plan for the host is skipped when it
/// has no task, and otherwise applied to the host's configuration, which must
/// exist; with `resolve_executors`, the host's executor must be known as well.
/// The first missing host or unknown executor stops the choice.
pub fn schedule(plan: &Plan, hosts: &HostConfig, resolve_executors: bool) -> (r: Schedule)
    ensures
        r@ == schedule_groups(plan@, hosts@, hosts@.groups, resolve_executors),
{
    let groups = hosts.groups();
    let ghost gs = hosts@.groups;
    let mut st = Schedule { lines: Vec::new(), jobs: Vec::new(), error: None };
    assert(st@ == schedule_groups(plan@, hosts@, gs.take(0), resolve_executors)) by {
        assert(gs.take(0).len() == 0);
        assert(crate::text::view_strings(st.lines@) =~= Seq::<Seq<char>>::empty());
        assert(view_jobs(st.jobs@) =~= Seq::<HostJobView>::empty());
    }
    let mut g: usize = 0;
    while g < groups.len()
        invariant
            g <= groups@.len(),
            gs == hosts@.groups,
            gs == crate::plan::host::view_group_entries(groups@),
            st@ == schedule_groups(plan@, hosts@, gs.take(g as int), resolve_executors),
        decreases groups.len() - g,
    {
        assert(gs.take(g + 1).drop_last() =~= gs.take(g as int));
        assert(gs.take(g + 1).last() == gs[g as int]);
        if st.error.is_some() {
            proof {
                lemma_groups_after_error(plan@, hosts@, gs, g as int, resolve_executors);
            }
            return st;
        }
        let (group_name, members) = (&groups[g].0, &groups[g].1);
        let ghost before_lines = crate::text::view_strings(st.lines@);
        let mut line = concat("*** applying plan to group: ", group_name.as_str());
        line.append(" ***");
        st.lines.push(line);
        assert(crate::text::view_strings(st.lines@) =~= before_lines.push(group_line(group_name@)));
        let ghost start = st@;
        let ghost ms = crate::text::view_strings(members@);
        assert(ms == gs[g as int].1);
        let mut m: usize = 0;
        assert(ms.take(0) =~= Seq::<Seq<char>>::empty());
        assert(ms.take(ms.len() as int) =~= ms);
        while m < members.len()
            invariant
                ms.take(ms.len() as int) == ms,
                m <= members@.len(),
                ms == crate::text::view_strings(members@),
                st@ == schedule_members(start, plan@, hosts@, ms.take(m as int), resolve_executors),
            ensures
                st@ == schedule_members(start, plan@, hosts@, ms, resolve_executors),
            decreases members.len() - m,
        {
            assert(ms.take(m + 1).drop_last() =~= ms.take(m as int));
            assert(ms.take(m + 1).last() == members@[m as int]@);
            if st.error.is_some() {
                proof {
                    lemma_members_after_error(st@, plan@, hosts@, ms.skip(m as int), resolve_executors);
                    lemma_members_split(start, plan@, hosts@, ms, m as int, resolve_executors);
                    assert(st@ == schedule_members(start, plan@, hosts@, ms, resolve_executors));
                }
                break;
            }
            schedule_one(&mut st, plan, hosts, &members[m], resolve_executors);
            m = m + 1;
        }
        g = g + 1;
    }
    assert(gs.take(groups.len() as int) =~= gs);
    st
}

/// Once an error stopped the choice, considering more groups changes nothing.
proof fn lemma_groups_after_error(plan: PlanView, hosts: HostConfigView, groups: Seq<(Seq<char>, Seq<Seq<char>>)>, g: int, resolve: bool)
    requires
        0 <= g <= groups.len(),
        schedule_groups(plan, hosts, groups.take(g), resolve).error is Some,
    ensures
        schedule_groups(plan, hosts, groups, resolve) == schedule_groups(plan, hosts, groups.take(g), resolve),
    decreases groups.len(),
{
    if g == groups.len() {
        assert(groups.take(g) =~= groups);
    } else {
        assert(groups.drop_last().take(g) =~= groups.take(g));
        lemma_groups_after_error(plan, hosts, groups.drop_last(), g, resolve);
    }
}

/// Considering a list of hosts is considering a prefix, then the rest.
proof fn lemma_members_split(st: ScheduleView, plan: PlanView, hosts: HostConfigView, members: Seq<Seq<char>>, m: int, resolve: bool)
    requires
        0 <= m <= members.len(),
    ensures
        schedule_members(st, plan, hosts, members, resolve) == schedule_members(
            schedule_members(st, plan, hosts, members.take(m), resolve),
            plan,
            hosts,
            members.skip(m),
            resolve,
        ),
    decreases members.len(),
{
    if members.len() == m {
        assert(members.take(m) =~= members);
        assert(members.skip(m).len() == 0);
    } else {
        lemma_members_split(st, plan, hosts, members.drop_last(), m, resolve);
        assert(members.drop_last().take(m) =~= members.take(m));
        assert(members.skip(m).drop_last() =~= members.drop_last().skip(m));
        assert(members.skip(m).last() == members.last());
    }
}


/// A job is what the schedule promises: the plan narrowed to its host, with
/// at least one task, the host's configuration, and, where executors are
/// resolved, the executor the configuration names.
pub open spec fn job_sound(j: HostJobView, plan: PlanView, hosts: HostConfigView, resolve: bool) -> bool {
    &&& j.plan == plan_for_host_of(plan, j.hostname, hosts)
    &&& j.plan.blueprint.len() > 0
    &&& lookup(hosts.hosts, j.hostname) == Some(j.host)
    &&& if resolve {
        j.executor is Some && j.executor == executor_type_of(j.host.executor)
    } else {
        j.executor is None
    }
}

/// Whether a host with tasks has a job in the schedule.
pub open spec fn host_scheduled(st: ScheduleView, plan: PlanView, hosts: HostConfigView, hostname: Seq<char>) -> bool {
    plan_for_host_of(plan, hostname, hosts).blueprint.len() > 0 ==> exists|k: int|
        0 <= k < st.jobs.len() && #[trigger] st.jobs[k].hostname == hostname
}

proof fn lemma_host_step(st: ScheduleView, plan: PlanView, hosts: HostConfigView, hostname: Seq<char>, resolve: bool)
    requires
        forall|k: int| 0 <= k < st.jobs.len() ==> job_sound(#[trigger] st.jobs[k], plan, hosts, resolve),
    ensures
        forall|k: int| 0 <= k < schedule_host(st, plan, hosts, hostname, resolve).jobs.len() ==> job_sound(
            #[trigger] schedule_host(st, plan, hosts, hostname, resolve).jobs[k],
            plan,
            hosts,
            resolve,
        ),
        st.jobs.is_prefix_of(schedule_host(st, plan, hosts, hostname, resolve).jobs),
        schedule_host(st, plan, hosts, hostname, resolve).error is None ==> host_scheduled(
            schedule_host(st, plan, hosts, hostname, resolve),
            plan,
            hosts,
            hostname,
        ),
        st.error is Some ==> schedule_host(st, plan, hosts, hostname, resolve) == st,
{
    let st2 = schedule_host(st, plan, hosts, hostname, resolve);
    if st2.jobs.len() > st.jobs.len() {
        assert(st2.jobs[st.jobs.len() as int].hostname == hostname);
    }
}

proof fn lemma_members_step(st: ScheduleView, plan: PlanView, hosts: HostConfigView, members: Seq<Seq<char>>, resolve: bool)
    requires
        forall|k: int| 0 <= k < st.jobs.len() ==> job_sound(#[trigger] st.jobs[k], plan, hosts, resolve),
    ensures
        forall|k: int| 0 <= k < schedule_members(st, plan, hosts, members, resolve).jobs.len() ==> job_sound(
            #[trigger] schedule_members(st, plan, hosts, members, resolve).jobs[k],
            plan,
            hosts,
            resolve,
        ),
        st.jobs.is_prefix_of(schedule_members(st, plan, hosts, members, resolve).jobs),
        schedule_members(st, plan, hosts, members, resolve).error is None ==> forall|i: int|
            0 <= i < members.len() ==> host_scheduled(
                schedule_members(st, plan, hosts, members, resolve),
                plan,
                hosts,
                #[trigger] members[i],
            ),
        schedule_members(st, plan, hosts, members, resolve).error is None ==> st.error is None,
    decreases members.len(),
{
    if members.len() > 0 {
        let init = members.drop_last();
        lemma_members_step(st, plan, hosts, init, resolve);
        let mid = schedule_members(st, plan, hosts, init, resolve);
        lemma_host_step(mid, plan, hosts, members.last(), resolve);
        let fin = schedule_members(st, plan, hosts, members, resolve);
        if fin.error is None {
            assert(mid.error is None);
            assert forall|i: int| 0 <= i < members.len() implies host_scheduled(fin, plan, hosts, #[trigger] members[i]) by {
                if i < members.len() - 1 {
                    assert(init[i] == members[i]);
                    assert(host_scheduled(mid, plan, hosts, init[i]));
                    if plan_for_host_of(plan, members[i], hosts).blueprint.len() > 0 {
                        let k = choose|k: int| 0 <= k < mid.jobs.len() && #[trigger] mid.jobs[k].hostname == members[i];
                        assert(fin.jobs[k] == mid.jobs[k]);
                    }
                }
            }
        }
        if st.error is Some {
            lemma_members_after_error(st, plan, hosts, members, resolve);
        }
    }
}

/// Every job of a schedule is sound (see `job_sound`), and when no error
/// stopped the choice, every host of every group that has a task for it has
/// a job.
pub proof fn lemma_schedule_sound_and_complete(plan: PlanView, hosts: HostConfigView, groups: Seq<(Seq<char>, Seq<Seq<char>>)>, resolve: bool)
    ensures
        forall|k: int| 0 <= k < schedule_groups(plan, hosts, groups, resolve).jobs.len() ==> job_sound(
            #[trigger] schedule_groups(plan, hosts, groups, resolve).jobs[k],
            plan,
            hosts,
            resolve,
        ),
        schedule_groups(plan, hosts, groups, resolve).error is None ==> forall|g: int, i: int|
            0 <= g < groups.len() && 0 <= i < groups[g].1.len() ==> host_scheduled(
                schedule_groups(plan, hosts, groups, resolve),
                plan,
                hosts,
                #[trigger] groups[g].1[i],
            ),
    decreases groups.len(),
{
    if groups.len() > 0 {
        let init = groups.drop_last();
        lemma_schedule_sound_and_complete(plan, hosts, init, resolve);
        let st = schedule_groups(plan, hosts, init, resolve);
        if st.error is None {
            let start = ScheduleView { lines: st.lines.push(group_line(groups.last().0)), ..st };
            lemma_members_step(start, plan, hosts, groups.last().1, resolve);
            let fin = schedule_groups(plan, hosts, groups, resolve);
            if fin.error is None {
                assert forall|g: int, i: int| 0 <= g < groups.len() && 0 <= i < groups[g].1.len() implies host_scheduled(
                    fin, plan, hosts, #[trigger] groups[g].1[i]) by {
                    if g < groups.len() - 1 {
                        assert(init[g] == groups[g]);
                        assert(host_scheduled(st, plan, hosts, init[g].1[i]));
                        if plan_for_host_of(plan, groups[g].1[i], hosts).blueprint.len() > 0 {
                            let k = choose|k: int| 0 <= k < st.jobs.len() && #[trigger] st.jobs[k].hostname == groups[g].1[i];
                            assert(fin.jobs[k] == st.jobs[k]);
                        }
                    } else {
                        assert(groups[g].1 == groups.last().1);
                    }
                }
            }
        }
    }
}
} // verus!
