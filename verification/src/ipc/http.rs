//! The controller's HTTP messages: a job request, and the state of a job.

use vstd::prelude::*;
use crate::text::view_strings;
use crate::text::clone_string;
use crate::plan::Plan;
use crate::plan::PlanView;
use crate::plan::host::HostConfig;
use crate::plan::host::HostConfigView;
use crate::plan::host::lookup;
use crate::plan::host::keys_distinct;

verus! {

/// A request to run a plan on the hosts of a configuration.
#[derive(Debug)]
pub struct JobStartRequest {
    pub plan: Plan,
    pub hosts: HostConfig,
}

/// Where a job stands.
#[derive(Debug, Clone, Copy, PartialEq, Eq, PartialOrd, Ord, Hash, Structural)]
pub enum JobStatus {
    Running,
    Completed,
    Failed,
}

/// The status of a job once applying its plan ended, well or not.
pub fn finished_status(succeeded: bool) -> (r: JobStatus)
    ensures
        r == (if succeeded { JobStatus::Completed } else { JobStatus::Failed }),
{
    if succeeded {
        JobStatus::Completed
    } else {
        JobStatus::Failed
    }
}

/// A line of a job's log, from one host.
#[derive(Debug)]
pub struct LogEntry {
    pub hostname: String,
    pub log: String,
}

/// The value of a [`LogEntry`].
pub struct LogEntryView {
    pub hostname: Seq<char>,
    pub log: Seq<char>,
}

impl View for LogEntry {
    type V = LogEntryView;

    open spec fn view(&self) -> LogEntryView {
        LogEntryView { hostname: self.hostname@, log: self.log@ }
    }
}

impl Clone for LogEntry {
    fn clone(&self) -> (r: Self)
        ensures
            r@ == self@,
    {
        LogEntry { hostname: clone_string(&self.hostname), log: clone_string(&self.log) }
    }
}

/// The views of a sequence of log entries.
pub open spec fn view_entries(v: Seq<LogEntry>) -> Seq<LogEntryView> {
    v.map_values(|e: LogEntry| e@)
}

/// The log entries of lines logged by one host.
pub open spec fn entries_of(hostname: Seq<char>, logs: Seq<Seq<char>>) -> Seq<LogEntryView> {
    logs.map_values(|l: Seq<char>| LogEntryView { hostname: hostname, log: l })
}

/// The log entries of the lines a host logged, in order.
pub fn log_entries(hostname: &String, logs: &Vec<String>) -> (r: Vec<LogEntry>)
    ensures
        view_entries(r@) == entries_of(hostname@, view_strings(logs@)),
{
    let mut r: Vec<LogEntry> = Vec::new();
    let mut i: usize = 0;
    while i < logs.len()
        invariant
            i <= logs@.len(),
            r@.len() == i,
            forall|k: int| 0 <= k < i ==> r@[k]@ == (LogEntryView { hostname: hostname@, log: logs@[k]@ }),
        decreases logs.len() - i,
    {
        r.push(LogEntry { hostname: clone_string(hostname), log: clone_string(&logs[i]) });
        i = i + 1;
    }
    assert(view_entries(r@) =~= entries_of(hostname@, view_strings(logs@)));
    r
}

/// The state of a job: its logs by key, its plan and hosts, and its status.
#[derive(Debug)]
pub struct JobState {
    pub logs: Vec<(String, Vec<LogEntry>)>,
    pub plan: Plan,
    pub hosts: HostConfig,
    pub status: JobStatus,
}

/// The views of keyed logs.
pub open spec fn view_log_map(v: Seq<(String, Vec<LogEntry>)>) -> Seq<(Seq<char>, Seq<LogEntryView>)> {
    v.map_values(|e: (String, Vec<LogEntry>)| (e.0@, view_entries(e.1@)))
}

impl JobState {
    /// A job that has just started, with no logs yet.
    pub fn started(plan: Plan, hosts: HostConfig) -> (r: JobState)
        ensures
            r.logs@.len() == 0,
            r.plan@ == plan@,
            r.hosts@ == hosts@,
            r.status == JobStatus::Running,
    {
        JobState { logs: Vec::new(), plan, hosts, status: JobStatus::Running }
    }

    /// Whether logs are kept under `key`.
    pub fn has_logs_for(&self, key: &String) -> (r: bool)
        ensures
            r == exists|i: int| 0 <= i < self.logs@.len() && #[trigger] self.logs@[i].0@ == key@,
    {
        let mut i: usize = 0;
        while i < self.logs.len()
            invariant
                i <= self.logs@.len(),
                forall|j: int| 0 <= j < i ==> self.logs@[j].0@ != key@,
            decreases self.logs.len() - i,
        {
            if self.logs[i].0 == *key {
                return true;
            }
            i = i + 1;
        }
        false
    }

    /// Appends entries to the logs kept under `key`, which must exist.
    pub fn append_logs(&mut self, key: &String, entries: Vec<LogEntry>)
        requires
            keys_distinct(view_log_map(old(self).logs@)),
            exists|i: int| 0 <= i < old(self).logs@.len() && #[trigger] old(self).logs@[i].0@ == key@,
        ensures
            keys_distinct(view_log_map(final(self).logs@)),
            lookup(view_log_map(final(self).logs@), key@) == Some(
                lookup(view_log_map(old(self).logs@), key@)->0 + view_entries(entries@),
            ),
            forall|k: Seq<char>| k != key@ ==> lookup(view_log_map(final(self).logs@), k) == lookup(
                view_log_map(old(self).logs@),
                k,
            ),
            final(self).plan@ == old(self).plan@,
            final(self).hosts@ == old(self).hosts@,
            final(self).status == old(self).status,
    {
        let ghost before = view_log_map(self.logs@);
        let i = match crate::plan::host::find_key(&self.logs, key) {
            Some(i) => i,
            None => {
                proof {
                    let k = choose|k: int| 0 <= k < old(self).logs@.len() && #[trigger] old(self).logs@[k].0@ == key@;
                }
                return;
            },
        };
        assert(self.logs@[i as int].0@ == key@);
        let ghost old_entries = view_entries(self.logs@[i as int].1@);
        let mut entry = (String::new(), Vec::new());
        std::mem::swap(&mut entry, &mut self.logs[i]);
        let ghost added = view_entries(entries@);
        let mut entries = entries;
        entry.1.append(&mut entries);
        assert(view_entries(entry.1@) =~= old_entries + added);
        self.logs.set(i, entry);
        let ghost after = view_log_map(self.logs@);
        assert(after =~= before.update(i as int, (key@, old_entries + added)));
        proof {
            crate::plan::host::lemma_lookup_index(before, key@);
            assert(before[i as int].0 == key@);
            assert(crate::plan::host::store(before, key@, old_entries + added) == after) by {
                let c = choose|c: int| 0 <= c < before.len() && before[c].0 == key@;
                assert(c == i) by {
                    if c != i as int {
                        if c < i { assert(before[c].0 != before[i as int].0); }
                        else { assert(before[i as int].0 != before[c].0); }
                    }
                }
            }
            assert forall|k: Seq<char>| k != key@ implies lookup(after, k) == lookup(before, k) by {
                crate::plan::host::lemma_store_lookup(before, key@, old_entries + added, k);
            }
            crate::plan::host::lemma_store_lookup(before, key@, old_entries + added, key@);
        }
    }
}

} // verus!
