//! Tasks, plans and their planning.
//!
//! A [`TaskSet`] is an unplanned list of [`Task`]s. Planning turns each task
//! into a [`PlannedTask`]: the command to run and the [`Ensure`]s to check on
//! the host before it. A [`Plan`] can then be narrowed to the tasks of one
//! host.

pub mod host;
pub mod visitor;

use vstd::prelude::*;
use vstd::string::StringExecFns;
use crate::text::view_strings;
use crate::text::clone_string;
use crate::text::clone_strings;
use crate::text::contains_string;
use self::host::HostConfig;
use self::visitor::PlanningTaskVisitor;
use self::visitor::TaskVisitor;

verus! {

/// Why a task set could not be planned.
#[derive(Debug, Clone, Copy, PartialEq, Eq, Structural)]
pub enum PlanError {
    /// A command could not be split into words: a quote is not closed.
    CommandParse,
}

impl PlanError {
    /// The text of the error.
    pub fn message(&self) -> (r: String)
        ensures
            r@ == "missing closing quote"@,
    {
        String::from_str("missing closing quote")
    }
}

/// The words of a command line, split the way `sh` would split them, or
/// `None` where a quote is not closed.
pub uninterp spec fn shell_words_of(command: Seq<char>) -> Option<Seq<Seq<char>>>;

/// The error of `shell_words::split`.
#[verifier::external_type_specification]
#[verifier::external_body]
pub struct ExShellParseError(shell_words::ParseError);

/// Splits a command line into words.
///
/// Trusted: `shell_words::split`. It fails exactly where `shell_words_of`
/// gives `None`, and otherwise returns the words that `shell_words_of` names;
/// the splitting rules themselves are not stated here.
#[verifier::external_body]
fn shell_split(command: &str) -> (r: Result<Vec<String>, shell_words::ParseError>)
    ensures
        r is Ok <==> shell_words_of(command@) is Some,
        r matches Ok(words) ==> view_strings(words@) == shell_words_of(command@)->0,
{
    shell_words::split(command)
}

/// The command line that `shell_words::join` makes of the words.
pub uninterp spec fn shell_join_of(words: Seq<Seq<char>>) -> Seq<char>;

/// Joins words into one command line for `sh`, each word quoted so that it
/// keeps its literal meaning.
///
/// Trusted: `shell_words::join`. Its result is named by `shell_join_of`, a
/// function of the words alone. The crate documents it as the inverse of
/// `shell_words::split` (each word is quoted, an empty one as `''`), so
/// splitting the line gives the words back.
#[verifier::external_body]
pub(crate) fn shell_join(words: &Vec<String>) -> (r: String)
    ensures
        r@ == shell_join_of(view_strings(words@)),
        shell_words_of(r@) == Some(view_strings(words@)),
{
    shell_words::join(words)
}

/// The parent directory of a path, as `std::path::Path::parent` gives it
/// (rendered as text), or `None` where the path has none.
pub uninterp spec fn path_parent_of(path: Seq<char>) -> Option<Seq<char>>;

/// The parent directory of a path.
///
/// Trusted: std's `Path::parent`, with the parent rendered by `display`. The
/// result is named by `path_parent_of`, a function of the path alone.
#[verifier::external_body]
pub(crate) fn path_parent(path: &str) -> (r: Option<String>)
    ensures
        r is Some <==> path_parent_of(path@) is Some,
        r matches Some(p) ==> p@ == path_parent_of(path@)->0,
{
    match std::path::Path::new(path).parent() {
        Some(p) => Some(p.display().to_string()),
        None => None,
    }
}

/// A task to be planned.
#[derive(Debug)]
pub enum Task {
    /// A command to be executed.
    Command { name: String, command: String, hosts: Vec<String> },
    /// A directory to be created.
    CreateDirectory { name: String, path: String, hosts: Vec<String> },
    /// A file to be created.
    TouchFile { name: String, path: String, hosts: Vec<String> },
}

/// The value of a [`Task`].
pub enum TaskView {
    Command { name: Seq<char>, command: Seq<char>, hosts: Seq<Seq<char>> },
    CreateDirectory { name: Seq<char>, path: Seq<char>, hosts: Seq<Seq<char>> },
    TouchFile { name: Seq<char>, path: Seq<char>, hosts: Seq<Seq<char>> },
}

impl View for Task {
    type V = TaskView;

    open spec fn view(&self) -> TaskView {
        match self {
            Task::Command { name, command, hosts } => TaskView::Command {
                name: name@,
                command: command@,
                hosts: view_strings(hosts@),
            },
            Task::CreateDirectory { name, path, hosts } => TaskView::CreateDirectory {
                name: name@,
                path: path@,
                hosts: view_strings(hosts@),
            },
            Task::TouchFile { name, path, hosts } => TaskView::TouchFile {
                name: name@,
                path: path@,
                hosts: view_strings(hosts@),
            },
        }
    }
}

impl TaskView {
    /// The name of the task.
    pub open spec fn name(self) -> Seq<char> {
        match self {
            TaskView::Command { name, .. } => name,
            TaskView::CreateDirectory { name, .. } => name,
            TaskView::TouchFile { name, .. } => name,
        }
    }

    /// The hosts and groups the task is meant for.
    pub open spec fn hosts(self) -> Seq<Seq<char>> {
        match self {
            TaskView::Command { hosts, .. } => hosts,
            TaskView::CreateDirectory { hosts, .. } => hosts,
            TaskView::TouchFile { hosts, .. } => hosts,
        }
    }
}

impl Clone for Task {
    fn clone(&self) -> (r: Self)
        ensures
            r@ == self@,
    {
        match self {
            Task::Command { name, command, hosts } => Task::Command {
                name: clone_string(name),
                command: clone_string(command),
                hosts: clone_strings(hosts),
            },
            Task::CreateDirectory { name, path, hosts } => Task::CreateDirectory {
                name: clone_string(name),
                path: clone_string(path),
                hosts: clone_strings(hosts),
            },
            Task::TouchFile { name, path, hosts } => Task::TouchFile {
                name: clone_string(name),
                path: clone_string(path),
                hosts: clone_strings(hosts),
            },
        }
    }
}

impl Task {
    /// The name of the task.
    pub fn name(&self) -> (r: &str)
        ensures
            r@ == self@.name(),
    {
        match self {
            Task::Command { name, .. } => name.as_str(),
            Task::CreateDirectory { name, .. } => name.as_str(),
            Task::TouchFile { name, .. } => name.as_str(),
        }
    }

    /// Lets the planning visitor visit the task: the task is compiled into a
    /// planned task kept by the visitor, or planning fails and the visitor
    /// keeps what it had.
    pub fn accept(&self, visitor: &mut PlanningTaskVisitor) -> (r: Result<(), PlanError>)
        requires
            task_plannable(self@),
        ensures
            final(visitor)@.name == old(visitor)@.name,
            match planned_task(self@) {
                Ok(p) => r is Ok && final(visitor)@.plan == old(visitor)@.plan.push(p),
                Err(e) => r == Err::<(), PlanError>(e) && final(visitor)@.plan == old(visitor)@.plan,
            },
    {
        visitor.visit_task(self)
    }

    /// The hosts and groups the task is meant for.
    pub fn hosts(&self) -> (r: Vec<String>)
        ensures
            view_strings(r@) == self@.hosts(),
    {
        match self {
            Task::Command { hosts, .. } => clone_strings(hosts),
            Task::CreateDirectory { hosts, .. } => clone_strings(hosts),
            Task::TouchFile { hosts, .. } => clone_strings(hosts),
        }
    }
}

/// A check run on the host before a task's command, so that the command can
/// be executed there.
#[derive(Debug)]
pub enum Ensure {
    /// The path exists on the host and is a file.
    FileExists { path: String },
    /// The path exists on the host and is a directory.
    DirectoryExists { path: String },
    /// The file does not exist on the host.
    FileDoesntExist { path: String },
    /// The directory does not exist on the host.
    DirectoryDoesntExist { path: String },
    /// The executable exists on the host.
    ExeExists { exe: String },
}

/// The value of an [`Ensure`].
pub enum EnsureView {
    FileExists { path: Seq<char> },
    DirectoryExists { path: Seq<char> },
    FileDoesntExist { path: Seq<char> },
    DirectoryDoesntExist { path: Seq<char> },
    ExeExists { exe: Seq<char> },
}

impl View for Ensure {
    type V = EnsureView;

    open spec fn view(&self) -> EnsureView {
        match self {
            Ensure::FileExists { path } => EnsureView::FileExists { path: path@ },
            Ensure::DirectoryExists { path } => EnsureView::DirectoryExists { path: path@ },
            Ensure::FileDoesntExist { path } => EnsureView::FileDoesntExist { path: path@ },
            Ensure::DirectoryDoesntExist { path } => EnsureView::DirectoryDoesntExist { path: path@ },
            Ensure::ExeExists { exe } => EnsureView::ExeExists { exe: exe@ },
        }
    }
}

impl Clone for Ensure {
    fn clone(&self) -> (r: Self)
        ensures
            r@ == self@,
    {
        match self {
            Ensure::FileExists { path } => Ensure::FileExists { path: clone_string(path) },
            Ensure::DirectoryExists { path } => Ensure::DirectoryExists { path: clone_string(path) },
            Ensure::FileDoesntExist { path } => Ensure::FileDoesntExist { path: clone_string(path) },
            Ensure::DirectoryDoesntExist { path } => Ensure::DirectoryDoesntExist {
                path: clone_string(path),
            },
            Ensure::ExeExists { exe } => Ensure::ExeExists { exe: clone_string(exe) },
        }
    }
}

/// The views of a sequence of ensures.
pub open spec fn view_ensures(v: Seq<Ensure>) -> Seq<EnsureView> {
    v.map_values(|e: Ensure| e@)
}

/// A copy of a vector of ensures.
pub fn clone_ensures(v: &Vec<Ensure>) -> (r: Vec<Ensure>)
    ensures
        view_ensures(r@) == view_ensures(v@),
{
    let mut r: Vec<Ensure> = Vec::new();
    let mut i: usize = 0;
    while i < v.len()
        invariant
            i <= v@.len(),
            r@.len() == i,
            forall|k: int| 0 <= k < i ==> r@[k]@ == v@[k]@,
        decreases v.len() - i,
    {
        r.push(v[i].clone());
        i = i + 1;
    }
    assert(view_ensures(r@) =~= view_ensures(v@));
    r
}

/// A planned task: its command, split into words, and the ensures that must
/// hold on the host before the command runs.
#[derive(Debug)]
pub struct PlannedTask {
    name: String,
    command: Vec<String>,
    checks: Vec<Ensure>,
    hosts: Vec<String>,
}

/// The value of a [`PlannedTask`].
pub struct PlannedTaskView {
    pub name: Seq<char>,
    pub command: Seq<Seq<char>>,
    pub checks: Seq<EnsureView>,
    pub hosts: Seq<Seq<char>>,
}

impl View for PlannedTask {
    type V = PlannedTaskView;

    closed spec fn view(&self) -> PlannedTaskView {
        PlannedTaskView {
            name: self.name@,
            command: view_strings(self.command@),
            checks: view_ensures(self.checks@),
            hosts: view_strings(self.hosts@),
        }
    }
}

impl Clone for PlannedTask {
    fn clone(&self) -> (r: Self)
        ensures
            r@ == self@,
    {
        PlannedTask {
            name: clone_string(&self.name),
            command: clone_strings(&self.command),
            checks: clone_ensures(&self.checks),
            hosts: clone_strings(&self.hosts),
        }
    }
}

/// The task planned from a command line, when its words are `words`.
pub open spec fn planned_command(name: Seq<char>, words: Seq<Seq<char>>, hosts: Seq<Seq<char>>) -> PlannedTaskView {
    PlannedTaskView {
        name: name,
        command: words,
        checks: seq![EnsureView::ExeExists { exe: words[0] }],
        hosts: hosts,
    }
}

impl PlannedTask {
    /// A planned task made of its parts.
    pub fn new(name: String, command: Vec<String>, checks: Vec<Ensure>, hosts: Vec<String>) -> (r: PlannedTask)
        ensures
            r@ == (PlannedTaskView {
                name: name@,
                command: view_strings(command@),
                checks: view_ensures(checks@),
                hosts: view_strings(hosts@),
            }),
    {
        PlannedTask { name, command, checks, hosts }
    }

    /// The name of the task.
    pub fn name(&self) -> (r: &String)
        ensures
            r@ == self@.name,
    {
        &self.name
    }

    /// The command, as words.
    pub fn command(&self) -> (r: &Vec<String>)
        ensures
            view_strings(r@) == self@.command,
    {
        &self.command
    }

    /// The ensures checked before the command (the `ensures` of the task).
    pub fn checks(&self) -> (r: &Vec<Ensure>)
        ensures
            view_ensures(r@) == self@.checks,
    {
        &self.checks
    }

    /// The hosts and groups the task is meant for.
    pub fn hosts(&self) -> (r: &Vec<String>)
        ensures
            view_strings(r@) == self@.hosts,
    {
        &self.hosts
    }

    /// Whether the task is a raw command (see `is_raw_command`).
    pub fn is_raw_command(&self) -> (r: bool)
        ensures
            r == is_raw_command(self@),
    {
        assert(self@.command.len() == self.command@.len());
        assert(self@.checks.len() == self.checks@.len());
        if self.command.len() == 0 || self.checks.len() != 1 {
            return false;
        }
        assert(self@.command.len() > 0);
        assert(self@.checks.len() == 1);
        let r = match &self.checks[0] {
            Ensure::ExeExists { exe } => *exe == self.command[0],
            _ => false,
        };
        assert(self@.checks[0] == self.checks@[0]@);
        assert(self@.command[0] == self.command@[0]@);
        if r {
            assert(self@.checks =~= seq![EnsureView::ExeExists { exe: self@.command[0] }]);
        }
        r
    }

    /// Plans a command line: its words are the command, and the first word
    /// must exist as an executable on the host. Fails where the command line
    /// cannot be split.
    pub fn from_shell_command(name: &str, command: &str, hosts: Vec<String>) -> (r: Result<PlannedTask, PlanError>)
        requires
            shell_words_of(command@) matches Some(words) ==> words.len() > 0,
        ensures
            match shell_words_of(command@) {
                None => r == Err::<PlannedTask, PlanError>(PlanError::CommandParse),
                Some(words) => r matches Ok(t) && t@ == planned_command(name@, words, view_strings(hosts@)),
            },
    {
        let split = match shell_split(command) {
            Ok(words) => words,
            Err(_) => {
                return Err(PlanError::CommandParse);
            },
        };
        let head = clone_string(&split[0]);
        let mut checks: Vec<Ensure> = Vec::new();
        checks.push(Ensure::ExeExists { exe: head });
        let r = PlannedTask { name: String::from_str(name), checks, command: split, hosts };
        assert(r@.checks =~= seq![EnsureView::ExeExists { exe: view_strings(split@)[0] }]);
        Ok(r)
    }
}

/// Whether a planned task is a raw command: its only ensure is that the
/// first word of its command exists as an executable. That is the form
/// planning gives a command task, and only a command task (see
/// `lemma_raw_commands`).
pub open spec fn is_raw_command(t: PlannedTaskView) -> bool {
    t.command.len() > 0 && t.checks == seq![EnsureView::ExeExists { exe: t.command[0] }]
}

/// Of the tasks that plan, exactly the command tasks are planned as raw
/// commands.
pub proof fn lemma_raw_commands(t: TaskView)
    requires
        task_plannable(t),
        planned_task(t) is Ok,
    ensures
        is_raw_command(planned_task(t)->Ok_0) <==> t is Command,
{
    let p = planned_task(t)->Ok_0;
    match t {
        TaskView::Command { name, command, hosts } => {
            assert(p.checks =~= seq![EnsureView::ExeExists { exe: p.command[0] }]);
        },
        TaskView::CreateDirectory { .. } => {
            if is_raw_command(p) {
                assert(p.checks[0] == EnsureView::ExeExists { exe: p.command[0] });
            }
        },
        TaskView::TouchFile { .. } => {
            assert(p.checks.len() == 2);
        },
    }
}

/// The views of a sequence of planned tasks.
pub open spec fn view_planned(v: Seq<PlannedTask>) -> Seq<PlannedTaskView> {
    v.map_values(|t: PlannedTask| t@)
}

/// A copy of a vector of planned tasks.
pub fn clone_planned(v: &Vec<PlannedTask>) -> (r: Vec<PlannedTask>)
    ensures
        view_planned(r@) == view_planned(v@),
{
    let mut r: Vec<PlannedTask> = Vec::new();
    let mut i: usize = 0;
    while i < v.len()
        invariant
            i <= v@.len(),
            r@.len() == i,
            forall|k: int| 0 <= k < i ==> r@[k]@ == v@[k]@,
        decreases v.len() - i,
    {
        r.push(v[i].clone());
        i = i + 1;
    }
    assert(view_planned(r@) =~= view_planned(v@));
    r
}

/// Whether planning the task completes: a command line that splits must have
/// a first word, and a file to create must have a parent directory.
pub open spec fn task_plannable(t: TaskView) -> bool {
    match t {
        TaskView::Command { command, .. } => match shell_words_of(command) {
            Some(words) => words.len() > 0,
            None => true,
        },
        TaskView::CreateDirectory { .. } => true,
        TaskView::TouchFile { path, .. } => path_parent_of(path) is Some,
    }
}

/// The planned form of a task.
pub open spec fn planned_task(t: TaskView) -> Result<PlannedTaskView, PlanError> {
    match t {
        TaskView::Command { name, command, hosts } => match shell_words_of(command) {
            None => Err(PlanError::CommandParse),
            Some(words) => Ok(planned_command(name, words, hosts)),
        },
        TaskView::CreateDirectory { name, path, hosts } => Ok(
            PlannedTaskView {
                name: name,
                command: seq!["mkdir"@, path],
                checks: seq![EnsureView::DirectoryDoesntExist { path: path }],
                hosts: hosts,
            },
        ),
        TaskView::TouchFile { name, path, hosts } => Ok(
            PlannedTaskView {
                name: name,
                command: seq!["touch"@, path],
                checks: seq![
                    EnsureView::ExeExists { exe: "touch"@ },
                    EnsureView::DirectoryExists { path: path_parent_of(path)->0 },
                ],
                hosts: hosts,
            },
        ),
    }
}

/// The planned tasks of a list of tasks, in order, or the error of the first
/// task that fails to plan.
pub open spec fn plan_tasks(tasks: Seq<TaskView>) -> Result<Seq<PlannedTaskView>, PlanError>
    decreases tasks.len(),
{
    if tasks.len() == 0 {
        Ok(seq![])
    } else {
        match plan_tasks(tasks.drop_last()) {
            Err(e) => Err(e),
            Ok(prefix) => match planned_task(tasks.last()) {
                Err(e) => Err(e),
                Ok(p) => Ok(prefix.push(p)),
            },
        }
    }
}

/// Whether planning the tasks completes: every task that planning reaches,
/// that is every task before the first failure and that one, is plannable.
pub open spec fn tasks_plannable(tasks: Seq<TaskView>) -> bool
    decreases tasks.len(),
{
    tasks.len() == 0 || (tasks_plannable(tasks.drop_last()) && (plan_tasks(tasks.drop_last()) is Ok
        ==> task_plannable(tasks.last())))
}

/// A prefix of plannable tasks is plannable.
pub proof fn lemma_tasks_plannable_prefix(tasks: Seq<TaskView>, i: int)
    requires
        tasks_plannable(tasks),
        0 <= i <= tasks.len(),
    ensures
        tasks_plannable(tasks.take(i)),
    decreases tasks.len(),
{
    if i < tasks.len() {
        assert(tasks.drop_last().take(i) =~= tasks.take(i));
        lemma_tasks_plannable_prefix(tasks.drop_last(), i);
    } else {
        assert(tasks.take(i) =~= tasks);
    }
}

/// An unplanned set of tasks.
#[derive(Debug)]
pub struct TaskSet {
    name: String,
    tasks: Vec<Task>,
}

/// The value of a [`TaskSet`].
pub struct TaskSetView {
    pub name: Seq<char>,
    pub tasks: Seq<TaskView>,
}

/// The views of a sequence of tasks.
pub open spec fn view_tasks(v: Seq<Task>) -> Seq<TaskView> {
    v.map_values(|t: Task| t@)
}

impl View for TaskSet {
    type V = TaskSetView;

    closed spec fn view(&self) -> TaskSetView {
        TaskSetView { name: self.name@, tasks: view_tasks(self.tasks@) }
    }
}

/// A planned task set: a name and its planned tasks.
#[derive(Debug)]
pub struct Plan {
    name: String,
    blueprint: Vec<PlannedTask>,
}

/// The value of a [`Plan`].
pub struct PlanView {
    pub name: Seq<char>,
    pub blueprint: Seq<PlannedTaskView>,
}

impl View for Plan {
    type V = PlanView;

    closed spec fn view(&self) -> PlanView {
        PlanView { name: self.name@, blueprint: view_planned(self.blueprint@) }
    }
}

/// The plan of a task set, or the error of the first task that fails.
pub open spec fn plan_of(ts: TaskSetView) -> Result<PlanView, PlanError> {
    match plan_tasks(ts.tasks) {
        Ok(blueprint) => Ok(PlanView { name: ts.name, blueprint: blueprint }),
        Err(e) => Err(e),
    }
}

impl TaskSet {
    /// An empty task set.
    pub fn new(name: &str) -> (r: TaskSet)
        ensures
            r@.name == name@,
            r@.tasks.len() == 0,
    {
        let r = TaskSet { name: String::from_str(name), tasks: Vec::new() };
        assert(r@.tasks =~= Seq::<TaskView>::empty());
        r
    }

    /// The name of the task set.
    pub fn name(&self) -> (r: &String)
        ensures
            r@ == self@.name,
    {
        &self.name
    }

    /// The tasks, in order.
    pub fn tasks(&self) -> (r: &Vec<Task>)
        ensures
            view_tasks(r@) == self@.tasks,
    {
        &self.tasks
    }

    /// Adds a task after the others.
    pub fn add_task(&mut self, task: Task)
        ensures
            final(self)@.name == old(self)@.name,
            final(self)@.tasks == old(self)@.tasks.push(task@),
    {
        let ghost t = task@;
        self.tasks.push(task);
        assert(self@.tasks =~= old(self)@.tasks.push(t));
    }

    /// Plans the task set: each task in order becomes a planned task. Fails
    /// with the error of the first task that cannot be planned.
    pub fn plan(self) -> (r: Result<Plan, PlanError>)
        requires
            tasks_plannable(self@.tasks),
        ensures
            match r {
                Ok(p) => plan_of(self@) == Ok::<PlanView, PlanError>(p@),
                Err(e) => plan_of(self@) == Err::<PlanView, PlanError>(e),
            },
    {
        let ghost tasks = self@.tasks;
        let mut visitor = PlanningTaskVisitor::new(self.name.as_str());
        let mut i: usize = 0;
        assert(tasks.take(0) =~= Seq::<TaskView>::empty());
        assert(visitor@.plan =~= Seq::<PlannedTaskView>::empty());
        while i < self.tasks.len()
            invariant
                i <= self.tasks@.len(),
                tasks == view_tasks(self.tasks@),
                tasks_plannable(tasks),
                plan_tasks(tasks.take(i as int)) == Ok::<Seq<PlannedTaskView>, PlanError>(
                    visitor@.plan,
                ),
            decreases self.tasks.len() - i,
        {
            let task = &self.tasks[i];
            assert(tasks.take(i + 1).drop_last() =~= tasks.take(i as int));
            assert(tasks.take(i + 1).last() == task@);
            proof {
                lemma_tasks_plannable_prefix(tasks, i + 1);
            }
            match task.accept(&mut visitor) {
                Ok(_) => {},
                Err(e) => {
                    proof {
                        lemma_plan_error_extends(tasks, i as int + 1);
                    }
                    return Err(e);
                },
            }
            i = i + 1;
        }
        assert(tasks.take(self.tasks.len() as int) =~= tasks);
        let blueprint = clone_planned(visitor.plan());
        Ok(Plan::new(self.name, blueprint))
    }

    /// Plans the task set where planning completes; `None` where planning
    /// would reach a task that is not plannable.
    pub fn plan_checked(self) -> (r: Option<Result<Plan, PlanError>>)
        ensures
            r is Some <==> tasks_plannable(self@.tasks),
            r matches Some(res) ==> match res {
                Ok(p) => plan_of(self@) == Ok::<PlanView, PlanError>(p@),
                Err(e) => plan_of(self@) == Err::<PlanView, PlanError>(e),
            },
    {
        if tasks_are_plannable(&self.tasks) {
            Some(self.plan())
        } else {
            None
        }
    }
}

/// Once a prefix of the tasks fails to plan, so do all the tasks.
pub proof fn lemma_plan_error_extends(tasks: Seq<TaskView>, i: int)
    requires
        0 <= i <= tasks.len(),
        plan_tasks(tasks.take(i)) is Err,
    ensures
        plan_tasks(tasks) == plan_tasks(tasks.take(i)),
    decreases tasks.len(),
{
    if i < tasks.len() {
        assert(tasks.drop_last().take(i) =~= tasks.take(i));
        lemma_plan_error_extends(tasks.drop_last(), i);
    } else {
        assert(tasks.take(i) =~= tasks);
    }
}

/// Whether the task is plannable, found by making the calls planning makes.
fn task_is_plannable(task: &Task) -> (r: (bool, bool))
    ensures
        r.0 == task_plannable(task@),
        r.1 == (planned_task(task@) is Ok),
{
    match task {
        Task::Command { command, .. } => match shell_split(command.as_str()) {
            Ok(words) => (words.len() > 0, true),
            Err(_) => (true, false),
        },
        Task::CreateDirectory { .. } => (true, true),
        Task::TouchFile { path, .. } => (path_parent(path.as_str()).is_some(), true),
    }
}

/// Whether planning the tasks completes.
fn tasks_are_plannable(tasks: &Vec<Task>) -> (r: bool)
    ensures
        r == tasks_plannable(view_tasks(tasks@)),
{
    let ghost ts = view_tasks(tasks@);
    let mut i: usize = 0;
    assert(ts.take(0) =~= Seq::<TaskView>::empty());
    while i < tasks.len()
        invariant
            i <= tasks@.len(),
            ts == view_tasks(tasks@),
            tasks_plannable(ts.take(i as int)),
            plan_tasks(ts.take(i as int)) is Ok,
        decreases tasks.len() - i,
    {
        assert(ts.take(i + 1).drop_last() =~= ts.take(i as int));
        assert(ts.take(i + 1).last() == tasks@[i as int]@);
        let (plannable, ok) = task_is_plannable(&tasks[i]);
        if !plannable {
            proof {
                lemma_plannable_extends_false(ts, i as int + 1);
            }
            return false;
        }
        if !ok {
            proof {
                lemma_plannable_after_error(ts, i as int + 1);
            }
            return true;
        }
        i = i + 1;
    }
    assert(ts.take(tasks.len() as int) =~= ts);
    true
}

/// Tasks with a prefix that is not plannable are not plannable.
proof fn lemma_plannable_extends_false(tasks: Seq<TaskView>, i: int)
    requires
        0 <= i <= tasks.len(),
        !tasks_plannable(tasks.take(i)),
    ensures
        !tasks_plannable(tasks),
    decreases tasks.len(),
{
    if i < tasks.len() {
        assert(tasks.drop_last().take(i) =~= tasks.take(i));
        lemma_plannable_extends_false(tasks.drop_last(), i);
    } else {
        assert(tasks.take(i) =~= tasks);
    }
}

/// Tasks whose plannable prefix already fails to plan are plannable.
proof fn lemma_plannable_after_error(tasks: Seq<TaskView>, i: int)
    requires
        0 <= i <= tasks.len(),
        tasks_plannable(tasks.take(i)),
        plan_tasks(tasks.take(i)) is Err,
    ensures
        tasks_plannable(tasks),
    decreases tasks.len(),
{
    if i < tasks.len() {
        assert(tasks.drop_last().take(i) =~= tasks.take(i));
        lemma_plannable_after_error(tasks.drop_last(), i);
        lemma_plan_error_extends(tasks.drop_last(), i);
    } else {
        assert(tasks.take(i) =~= tasks);
    }
}

impl Clone for Plan {
    fn clone(&self) -> (r: Self)
        ensures
            r@ == self@,
    {
        Plan { name: clone_string(&self.name), blueprint: clone_planned(&self.blueprint) }
    }
}

/// The names of the groups that list `host` among their members, in order.
pub open spec fn groups_containing(groups: Seq<(Seq<char>, Seq<Seq<char>>)>, host: Seq<char>) -> Seq<Seq<char>>
    decreases groups.len(),
{
    if groups.len() == 0 {
        seq![]
    } else {
        let prev = groups_containing(groups.drop_last(), host);
        if groups.last().1.contains(host) {
            prev.push(groups.last().0)
        } else {
            prev
        }
    }
}

/// Whether a task meant for `task_hosts` applies to `host`: the host is named
/// directly, or one of the names is a group that lists the host.
pub open spec fn applies_to_host(task_hosts: Seq<Seq<char>>, host: Seq<char>, groups: Seq<(Seq<char>, Seq<Seq<char>>)>) -> bool {
    task_hosts.contains(host) || exists|i: int|
        0 <= i < task_hosts.len() && groups_containing(groups, host).contains(task_hosts[i])
}

/// The planned tasks that apply to `host`, in their order.
pub open spec fn tasks_for_host(blueprint: Seq<PlannedTaskView>, host: Seq<char>, groups: Seq<(Seq<char>, Seq<Seq<char>>)>) -> Seq<PlannedTaskView>
    decreases blueprint.len(),
{
    if blueprint.len() == 0 {
        seq![]
    } else {
        let prev = tasks_for_host(blueprint.drop_last(), host, groups);
        if applies_to_host(blueprint.last().hosts, host, groups) {
            prev.push(blueprint.last())
        } else {
            prev
        }
    }
}

/// The plan narrowed to the tasks that apply to `host`.
pub open spec fn plan_for_host_of(p: PlanView, host: Seq<char>, hosts: HostConfigView) -> PlanView {
    PlanView { name: p.name, blueprint: tasks_for_host(p.blueprint, host, hosts.groups) }
}

use self::host::HostConfigView;

/// The names of the groups that list `host`.
fn group_names_for(groups: &Vec<(String, Vec<String>)>, host: &String) -> (r: Vec<String>)
    ensures
        view_strings(r@) == groups_containing(host::view_group_entries(groups@), host@),
{
    let ghost gs = host::view_group_entries(groups@);
    let mut r: Vec<String> = Vec::new();
    let mut i: usize = 0;
    assert(gs.take(0) =~= Seq::<(Seq<char>, Seq<Seq<char>>)>::empty());
    while i < groups.len()
        invariant
            i <= groups@.len(),
            gs == host::view_group_entries(groups@),
            view_strings(r@) == groups_containing(gs.take(i as int), host@),
        decreases groups.len() - i,
    {
        assert(gs.take(i + 1).drop_last() =~= gs.take(i as int));
        assert(gs.take(i + 1).last() == gs[i as int]);
        let (name, members) = (&groups[i].0, &groups[i].1);
        if contains_string(members, host) {
            let ghost before = view_strings(r@);
            r.push(clone_string(name));
            assert(view_strings(r@) =~= before.push(name@));
        }
        i = i + 1;
    }
    assert(gs.take(groups.len() as int) =~= gs);
    r
}

/// Whether any of the names is among `names`.
fn any_in(task_hosts: &Vec<String>, names: &Vec<String>) -> (r: bool)
    ensures
        r == exists|i: int| 0 <= i < task_hosts@.len() && view_strings(names@).contains(task_hosts@[i]@),
{
    let mut i: usize = 0;
    while i < task_hosts.len()
        invariant
            i <= task_hosts@.len(),
            forall|j: int| 0 <= j < i ==> !view_strings(names@).contains(task_hosts@[j]@),
        decreases task_hosts.len() - i,
    {
        if contains_string(names, &task_hosts[i]) {
            return true;
        }
        i = i + 1;
    }
    false
}

impl Plan {
    /// A plan of the given planned tasks.
    pub fn new(name: String, blueprint: Vec<PlannedTask>) -> (r: Plan)
        ensures
            r@ == (PlanView { name: name@, blueprint: view_planned(blueprint@) }),
    {
        Plan { name, blueprint }
    }

    /// The name of the plan.
    pub fn name(&self) -> (r: &String)
        ensures
            r@ == self@.name,
    {
        &self.name
    }

    /// The planned tasks, in order.
    pub fn blueprint(&self) -> (r: &Vec<PlannedTask>)
        ensures
            view_planned(r@) == self@.blueprint,
    {
        &self.blueprint
    }

    /// The plan for one host: the tasks of this plan that name the host, or a
    /// group that lists it, keep their order; the others are left out.
    pub fn plan_for_host(&self, host: &String, hosts: &HostConfig) -> (r: Plan)
        ensures
            r@ == plan_for_host_of(self@, host@, hosts@),
            r@.name == self@.name,
            forall|i: int| #![trigger self@.blueprint[i]] 0 <= i < self@.blueprint.len() && (
            self@.blueprint[i].hosts.contains(host@) || exists|k: int, j: int|
                #![trigger hosts@.groups[k], self@.blueprint[i].hosts[j]]
                0 <= k < hosts@.groups.len() && 0 <= j < self@.blueprint[i].hosts.len() && hosts@.groups[k].1.contains(
                    host@,
                ) && self@.blueprint[i].hosts[j] == hosts@.groups[k].0) ==> r@.blueprint.contains(self@.blueprint[i]),
            forall|t: PlannedTaskView| #[trigger] r@.blueprint.contains(t) ==> self@.blueprint.contains(t) && (
            t.hosts.contains(host@) || exists|k: int, j: int| #![trigger hosts@.groups[k], t.hosts[j]]
                0 <= k < hosts@.groups.len() && 0 <= j < t.hosts.len() && hosts@.groups[k].1.contains(host@)
                    && t.hosts[j] == hosts@.groups[k].0),
    {
        let ghost bp = self@.blueprint;
        let ghost groups = hosts@.groups;
        let mut blueprint: Vec<PlannedTask> = Vec::new();
        let mut i: usize = 0;
        assert(bp.take(0) =~= Seq::<PlannedTaskView>::empty());
        while i < self.blueprint.len()
            invariant
                i <= self.blueprint@.len(),
                bp == view_planned(self.blueprint@),
                groups == hosts@.groups,
                view_planned(blueprint@) == tasks_for_host(bp.take(i as int), host@, groups),
            decreases self.blueprint.len() - i,
        {
            let task = &self.blueprint[i];
            assert(bp.take(i + 1).drop_last() =~= bp.take(i as int));
            assert(bp.take(i + 1).last() == task@);
            let group_names = group_names_for(hosts.groups(), host);
            let task_hosts = task.hosts();
            let direct = contains_string(task_hosts, host);
            let via_group = any_in(task_hosts, &group_names);
            proof {
                let th = view_strings(task_hosts@);
                if via_group {
                    let j = choose|j: int| 0 <= j < task_hosts@.len() && view_strings(group_names@).contains(task_hosts@[j]@);
                    assert(th[j] == task_hosts@[j]@);
                }
                if exists|j: int| 0 <= j < th.len() && groups_containing(groups, host@).contains(th[j]) {
                    let j = choose|j: int| 0 <= j < th.len() && groups_containing(groups, host@).contains(th[j]);
                    assert(th[j] == task_hosts@[j]@);
                }
            }
            if direct || via_group {
                let ghost before = view_planned(blueprint@);
                blueprint.push(task.clone());
                assert(view_planned(blueprint@) =~= before.push(task@));
            }
            i = i + 1;
        }
        assert(bp.take(self.blueprint.len() as int) =~= bp);
        proof {
            lemma_plan_for_host(self@, host@, hosts@);
        }
        Plan { name: clone_string(&self.name), blueprint }
    }
}


/// Planning keeps the tasks in order: a plan has one planned task per task,
/// and the planned task at each position is the planned form of the task at
/// that position.
pub proof fn lemma_plan_matches_tasks(tasks: Seq<TaskView>)
    requires
        plan_tasks(tasks) is Ok,
    ensures
        plan_tasks(tasks)->Ok_0.len() == tasks.len(),
        forall|i: int|
            0 <= i < tasks.len() ==> planned_task(#[trigger] tasks[i]) == Ok::<PlannedTaskView, PlanError>(
                plan_tasks(tasks)->Ok_0[i],
            ),
    decreases tasks.len(),
{
    if tasks.len() > 0 {
        lemma_plan_matches_tasks(tasks.drop_last());
        let prefix = plan_tasks(tasks.drop_last())->Ok_0;
        assert forall|i: int| 0 <= i < tasks.len() implies planned_task(#[trigger] tasks[i])
            == Ok::<PlannedTaskView, PlanError>(plan_tasks(tasks)->Ok_0[i]) by {
            if i < tasks.len() - 1 {
                assert(tasks.drop_last()[i] == tasks[i]);
            }
        }
    }
}

/// A planned task keeps the name and the hosts of its task; where the task
/// is plannable, its command has at least one word and at least one ensure
/// guards it.
pub proof fn lemma_planned_task_shape(t: TaskView)
    requires
        task_plannable(t),
        planned_task(t) is Ok,
    ensures
        planned_task(t)->Ok_0.name == t.name(),
        planned_task(t)->Ok_0.hosts == t.hosts(),
        planned_task(t)->Ok_0.command.len() > 0,
        planned_task(t)->Ok_0.checks.len() > 0,
{
}

/// Planning fails exactly when some task's command line cannot be split, and
/// then with the error of the first such task.
pub proof fn lemma_plan_error_is_first_failure(tasks: Seq<TaskView>)
    ensures
        plan_tasks(tasks) is Err <==> exists|i: int|
            0 <= i < tasks.len() && #[trigger] planned_task(tasks[i]) is Err,
    decreases tasks.len(),
{
    if tasks.len() > 0 {
        lemma_plan_error_is_first_failure(tasks.drop_last());
        if exists|i: int| 0 <= i < tasks.drop_last().len() && #[trigger] planned_task(tasks.drop_last()[i]) is Err {
            let i = choose|i: int| 0 <= i < tasks.drop_last().len() && #[trigger] planned_task(tasks.drop_last()[i]) is Err;
            assert(planned_task(tasks[i]) is Err);
        }
        if exists|i: int| 0 <= i < tasks.len() && #[trigger] planned_task(tasks[i]) is Err {
            let i = choose|i: int| 0 <= i < tasks.len() && #[trigger] planned_task(tasks[i]) is Err;
            if i < tasks.len() - 1 {
                assert(planned_task(tasks.drop_last()[i]) is Err);
            }
        }
    }
}

/// A group name is among the groups containing a host exactly when some
/// group of that name lists the host.
pub proof fn lemma_groups_containing(groups: Seq<(Seq<char>, Seq<Seq<char>>)>, host: Seq<char>, name: Seq<char>)
    ensures
        groups_containing(groups, host).contains(name) <==> exists|j: int|
            0 <= j < groups.len() && #[trigger] groups[j].0 == name && groups[j].1.contains(host),
    decreases groups.len(),
{
    if groups.len() > 0 {
        let init = groups.drop_last();
        lemma_groups_containing(init, host, name);
        let prev = groups_containing(init, host);
        if exists|j: int| 0 <= j < init.len() && #[trigger] init[j].0 == name && init[j].1.contains(host) {
            let j = choose|j: int| 0 <= j < init.len() && #[trigger] init[j].0 == name && init[j].1.contains(host);
            assert(groups[j].0 == name);
        }
        if groups.last().1.contains(host) {
            assert(prev.push(groups.last().0).last() == groups.last().0);
            assert forall|x: Seq<char>| prev.contains(x) implies prev.push(groups.last().0).contains(x) by {
                let k = choose|k: int| 0 <= k < prev.len() && prev[k] == x;
                assert(prev.push(groups.last().0)[k] == x);
            }
            if prev.push(groups.last().0).contains(name) {
                let k = choose|k: int| 0 <= k < prev.len() + 1 && prev.push(groups.last().0)[k] == name;
                if k < prev.len() {
                    assert(prev.contains(name));
                }
            }
        }
        if exists|j: int| 0 <= j < groups.len() && #[trigger] groups[j].0 == name && groups[j].1.contains(host) {
            let j = choose|j: int| 0 <= j < groups.len() && #[trigger] groups[j].0 == name && groups[j].1.contains(host);
            if j < groups.len() - 1 {
                assert(init[j].0 == name);
            } else {
                assert(prev.push(groups.last().0)[prev.len() as int] == name);
            }
        }
    }
}

/// A task applies to a host exactly when it names the host, or names a
/// group that lists the host.
pub proof fn lemma_applies_to_host(task_hosts: Seq<Seq<char>>, host: Seq<char>, groups: Seq<(Seq<char>, Seq<Seq<char>>)>)
    ensures
        applies_to_host(task_hosts, host, groups) <==> (task_hosts.contains(host) || exists|i: int, j: int|
            0 <= i < task_hosts.len() && 0 <= j < groups.len() && #[trigger] task_hosts[i] == #[trigger] groups[j].0
                && groups[j].1.contains(host)),
{
    if exists|i: int| 0 <= i < task_hosts.len() && groups_containing(groups, host).contains(task_hosts[i]) {
        let i = choose|i: int| 0 <= i < task_hosts.len() && groups_containing(groups, host).contains(task_hosts[i]);
        lemma_groups_containing(groups, host, task_hosts[i]);
        let j = choose|j: int| 0 <= j < groups.len() && #[trigger] groups[j].0 == task_hosts[i] && groups[j].1.contains(host);
        assert(task_hosts[i] == groups[j].0);
    }
    if exists|i: int, j: int| 0 <= i < task_hosts.len() && 0 <= j < groups.len() && #[trigger] task_hosts[i] == #[trigger] groups[j].0
        && groups[j].1.contains(host) {
        let (i, j) = choose|i: int, j: int| 0 <= i < task_hosts.len() && 0 <= j < groups.len() && #[trigger] task_hosts[i] == #[trigger] groups[j].0
            && groups[j].1.contains(host);
        lemma_groups_containing(groups, host, task_hosts[i]);
        assert(groups[j].0 == task_hosts[i]);
    }
}

/// The tasks kept for a host apply to it, every task of the plan that applies
/// to it is kept, and no task is added.
#[verifier::spinoff_prover]
pub proof fn lemma_tasks_for_host(blueprint: Seq<PlannedTaskView>, host: Seq<char>, groups: Seq<(Seq<char>, Seq<Seq<char>>)>)
    ensures
        tasks_for_host(blueprint, host, groups).len() <= blueprint.len(),
        forall|k: int| 0 <= k < tasks_for_host(blueprint, host, groups).len()
            ==> applies_to_host(#[trigger] tasks_for_host(blueprint, host, groups)[k].hosts, host, groups)
                && blueprint.contains(tasks_for_host(blueprint, host, groups)[k]),
        forall|i: int| 0 <= i < blueprint.len() && applies_to_host(#[trigger] blueprint[i].hosts, host, groups)
            ==> tasks_for_host(blueprint, host, groups).contains(blueprint[i]),
    decreases blueprint.len(),
{
    if blueprint.len() > 0 {
        let init = blueprint.drop_last();
        lemma_tasks_for_host(init, host, groups);
        let prev = tasks_for_host(init, host, groups);
        let cur = tasks_for_host(blueprint, host, groups);
        assert forall|k: int| 0 <= k < cur.len() implies applies_to_host(#[trigger] cur[k].hosts, host, groups)
            && blueprint.contains(cur[k]) by {
            if k < prev.len() {
                assert(cur[k] == prev[k]);
                assert(applies_to_host(prev[k].hosts, host, groups) && init.contains(prev[k]));
                let m = choose|m: int| 0 <= m < init.len() && init[m] == prev[k];
                assert(blueprint[m] == prev[k]);
            } else {
                assert(cur[k] == blueprint.last());
                assert(blueprint[blueprint.len() - 1] == blueprint.last());
            }
        }
        assert forall|i: int| 0 <= i < blueprint.len() && applies_to_host(#[trigger] blueprint[i].hosts, host, groups)
            implies cur.contains(blueprint[i]) by {
            if i < blueprint.len() - 1 {
                assert(init[i] == blueprint[i]);
                let m = choose|m: int| 0 <= m < prev.len() && prev[m] == blueprint[i];
                if applies_to_host(blueprint.last().hosts, host, groups) {
                    assert(cur[m] == blueprint[i]);
                }
            } else {
                assert(cur[cur.len() - 1] == blueprint[i]);
            }
        }
    }
}

/// Narrowing a plan to a host keeps its name, and keeps exactly the tasks
/// that name the host, or name some group of the configuration that lists
/// the host: every such task of the plan is kept, and every kept task is a
/// task of the plan of that kind.
pub proof fn lemma_plan_for_host(p: PlanView, host: Seq<char>, hosts: HostConfigView)
    ensures
        plan_for_host_of(p, host, hosts).name == p.name,
        forall|i: int| #![trigger p.blueprint[i]] 0 <= i < p.blueprint.len() && (p.blueprint[i].hosts.contains(host)
            || exists|k: int, j: int| #![trigger hosts.groups[k], p.blueprint[i].hosts[j]]
            0 <= k < hosts.groups.len() && 0 <= j < p.blueprint[i].hosts.len() && hosts.groups[k].1.contains(host)
                && p.blueprint[i].hosts[j] == hosts.groups[k].0)
            ==> plan_for_host_of(p, host, hosts).blueprint.contains(p.blueprint[i]),
        forall|t: PlannedTaskView| #[trigger] plan_for_host_of(p, host, hosts).blueprint.contains(t) ==> p.blueprint.contains(t)
            && (t.hosts.contains(host) || exists|k: int, j: int| #![trigger hosts.groups[k], t.hosts[j]]
            0 <= k < hosts.groups.len() && 0 <= j < t.hosts.len() && hosts.groups[k].1.contains(host)
                && t.hosts[j] == hosts.groups[k].0),
{
    let groups = hosts.groups;
    let kept = plan_for_host_of(p, host, hosts).blueprint;
    lemma_tasks_for_host(p.blueprint, host, groups);
    assert forall|i: int| #![trigger p.blueprint[i]] 0 <= i < p.blueprint.len() && (p.blueprint[i].hosts.contains(host)
        || exists|k: int, j: int| #![trigger groups[k], p.blueprint[i].hosts[j]]
        0 <= k < groups.len() && 0 <= j < p.blueprint[i].hosts.len() && groups[k].1.contains(host)
            && p.blueprint[i].hosts[j] == groups[k].0)
        implies kept.contains(p.blueprint[i]) by {
        lemma_applies_to_host(p.blueprint[i].hosts, host, groups);
        if !p.blueprint[i].hosts.contains(host) {
            let (k, j) = choose|k: int, j: int| #![trigger groups[k], p.blueprint[i].hosts[j]]
                0 <= k < groups.len() && 0 <= j < p.blueprint[i].hosts.len()
                && groups[k].1.contains(host) && p.blueprint[i].hosts[j] == groups[k].0;
            assert(p.blueprint[i].hosts[j] == groups[k].0);
        }
    }
    assert forall|t: PlannedTaskView| #[trigger] kept.contains(t) implies p.blueprint.contains(t)
        && (t.hosts.contains(host) || exists|k: int, j: int| #![trigger groups[k], t.hosts[j]]
        0 <= k < groups.len() && 0 <= j < t.hosts.len() && groups[k].1.contains(host)
            && t.hosts[j] == groups[k].0) by {
        let m = choose|m: int| 0 <= m < kept.len() && kept[m] == t;
        assert(applies_to_host(kept[m].hosts, host, groups));
        lemma_applies_to_host(t.hosts, host, groups);
        if !t.hosts.contains(host) {
            let (j, k) = choose|j: int, k: int| 0 <= j < t.hosts.len() && 0 <= k < groups.len()
                && #[trigger] t.hosts[j] == #[trigger] groups[k].0 && groups[k].1.contains(host);
            assert(t.hosts[j] == groups[k].0);
            assert(groups[k].1.contains(host));
        }
    }
}

/// Narrowing a plan to a host twice gives what narrowing once gives.
pub proof fn lemma_plan_for_host_idempotent(p: PlanView, host: Seq<char>, hosts: HostConfigView)
    ensures
        plan_for_host_of(plan_for_host_of(p, host, hosts), host, hosts) == plan_for_host_of(p, host, hosts),
{
    lemma_tasks_for_host_idempotent(p.blueprint, host, hosts.groups);
}

proof fn lemma_tasks_for_host_idempotent(blueprint: Seq<PlannedTaskView>, host: Seq<char>, groups: Seq<(Seq<char>, Seq<Seq<char>>)>)
    ensures
        tasks_for_host(tasks_for_host(blueprint, host, groups), host, groups) == tasks_for_host(blueprint, host, groups),
    decreases blueprint.len(),
{
    if blueprint.len() > 0 {
        let init = blueprint.drop_last();
        lemma_tasks_for_host_idempotent(init, host, groups);
        let prev = tasks_for_host(init, host, groups);
        if applies_to_host(blueprint.last().hosts, host, groups) {
            let cur = prev.push(blueprint.last());
            assert(cur.drop_last() =~= prev);
        }
    }
}
} // verus!
