//! The SSH executor's decisions: which checks and commands it runs on the
//! remote host, in which order, what it logs, and how it reads a command's
//! channel. The connection itself is made by the caller, which performs each
//! step's actions and reports back what happened.

use vstd::prelude::*;
use vstd::string::StringExecFns;
use crate::text::view_strings;
use crate::text::clone_string;
use crate::text::concat;
use crate::text::decimal;
use crate::text::decimal_of;
use crate::text::debug_str;
use crate::text::debug_text;
use crate::text::join;
use crate::text::join_with;
use crate::text::split_char;
use crate::text::split_on;
use crate::text::decode_utf8;
use crate::text::utf8_error_display_of;
use crate::plan::Ensure;
use crate::plan::EnsureView;
use crate::plan::Plan;
use crate::plan::PlanView;
use crate::plan::view_ensures;
use crate::plan::shell_join;
use crate::plan::shell_join_of;
use super::ExecutionContext;
use super::PartialLogStream;
use super::PartialLogStreamView;
use super::log_line;
use super::one_line;
use super::view_streams;
use super::closes_stream;
use super::keeps_stream_open;
use super::lemma_stream_concat;
use super::simple::ExecutionContextView;

verus! {

/// The context of an SSH execution.
#[derive(Debug)]
pub struct SshExecutionContext<'a> {
    name: String,
    plan: &'a Plan,
}

impl<'a> View for SshExecutionContext<'a> {
    type V = ExecutionContextView;

    closed spec fn view(&self) -> ExecutionContextView {
        ExecutionContextView { name: self.name@, plan: self.plan@ }
    }
}

impl<'a> SshExecutionContext<'a> {
    /// A context named `name` for executing `plan`.
    pub fn new(name: &str, plan: &'a Plan) -> (r: Self)
        ensures
            r@ == (ExecutionContextView { name: name@, plan: plan@ }),
    {
        SshExecutionContext { name: String::from_str(name), plan }
    }
}

impl<'a> Clone for SshExecutionContext<'a> {
    fn clone(&self) -> (r: Self)
        ensures
            r@ == self@,
    {
        SshExecutionContext { name: clone_string(&self.name), plan: self.plan }
    }
}

impl<'a> ExecutionContext for SshExecutionContext<'a> {
    fn name(&self) -> (r: &str)
        ensures
            r@ == self@.name,
    {
        self.name.as_str()
    }

    fn plan(&self) -> (r: &Plan)
        ensures
            r@ == self@.plan,
    {
        self.plan
    }
}

/// An ensure as `{:?}` renders it.
pub open spec fn ensure_debug_of(e: EnsureView) -> Seq<char> {
    match e {
        EnsureView::FileExists { path } => "FileExists { path: "@ + debug_text(path) + " }"@,
        EnsureView::DirectoryExists { path } => "DirectoryExists { path: "@ + debug_text(path) + " }"@,
        EnsureView::FileDoesntExist { path } => "FileDoesntExist { path: "@ + debug_text(path) + " }"@,
        EnsureView::DirectoryDoesntExist { path } => "DirectoryDoesntExist { path: "@ + debug_text(path)
            + " }"@,
        EnsureView::ExeExists { exe } => "ExeExists { exe: "@ + debug_text(exe) + " }"@,
    }
}

/// Renders an ensure as `{:?}` does.
pub fn ensure_debug(e: &Ensure) -> (r: String)
    ensures
        r@ == ensure_debug_of(e@),
{
    let (head, value) = match e {
        Ensure::FileExists { path } => ("FileExists { path: ", path),
        Ensure::DirectoryExists { path } => ("DirectoryExists { path: ", path),
        Ensure::FileDoesntExist { path } => ("FileDoesntExist { path: ", path),
        Ensure::DirectoryDoesntExist { path } => ("DirectoryDoesntExist { path: ", path),
        Ensure::ExeExists { exe } => ("ExeExists { exe: ", exe),
    };
    let mut r = String::from_str(head);
    r.append(debug_str(value.as_str()).as_str());
    r.append(" }");
    r
}

/// A list of ensures as `{:?}` renders it.
pub open spec fn ensures_debug_of(es: Seq<EnsureView>) -> Seq<char> {
    "["@ + join_with(es.map_values(|e: EnsureView| ensure_debug_of(e)), ", "@) + "]"@
}

/// Renders a list of ensures as `{:?}` does.
pub fn ensures_debug(es: &Vec<Ensure>) -> (r: String)
    ensures
        r@ == ensures_debug_of(view_ensures(es@)),
{
    let mut parts: Vec<String> = Vec::new();
    let mut i: usize = 0;
    while i < es.len()
        invariant
            i <= es@.len(),
            parts@.len() == i,
            forall|k: int| 0 <= k < i ==> parts@[k]@ == ensure_debug_of(es@[k]@),
        decreases es.len() - i,
    {
        parts.push(ensure_debug(&es[i]));
        i = i + 1;
    }
    assert(view_strings(parts@) =~= view_ensures(es@).map_values(|e: EnsureView| ensure_debug_of(e)));
    let mut r = String::from_str("[");
    r.append(join(&parts, ", ").as_str());
    r.append("]");
    r
}

/// The words of the command that checks an ensure on the host: `test -f`
/// and `test -d` for a file or a directory that must exist, `test -e` for a
/// path that must not exist at all (so that a path of the other kind fails
/// the check too), and `which` for an executable.
pub open spec fn check_words_of(e: EnsureView) -> Seq<Seq<char>> {
    match e {
        EnsureView::DirectoryDoesntExist { path } => seq!["test"@, "-e"@, path],
        EnsureView::DirectoryExists { path } => seq!["test"@, "-d"@, path],
        EnsureView::FileDoesntExist { path } => seq!["test"@, "-e"@, path],
        EnsureView::FileExists { path } => seq!["test"@, "-f"@, path],
        EnsureView::ExeExists { exe } => seq!["which"@, exe],
    }
}

/// The shell command that checks an ensure on the host: its words, each
/// quoted for `sh`.
pub open spec fn check_command_of(e: EnsureView) -> Seq<char> {
    shell_join_of(check_words_of(e))
}

/// The words of the command that checks an ensure on the host.
pub fn check_words(e: &Ensure) -> (r: Vec<String>)
    ensures
        view_strings(r@) == check_words_of(e@),
{
    let mut r: Vec<String> = Vec::new();
    match e {
        Ensure::DirectoryDoesntExist { path } => {
            r.push(String::from_str("test"));
            r.push(String::from_str("-e"));
            r.push(clone_string(path));
        },
        Ensure::DirectoryExists { path } => {
            r.push(String::from_str("test"));
            r.push(String::from_str("-d"));
            r.push(clone_string(path));
        },
        Ensure::FileDoesntExist { path } => {
            r.push(String::from_str("test"));
            r.push(String::from_str("-e"));
            r.push(clone_string(path));
        },
        Ensure::FileExists { path } => {
            r.push(String::from_str("test"));
            r.push(String::from_str("-f"));
            r.push(clone_string(path));
        },
        Ensure::ExeExists { exe } => {
            r.push(String::from_str("which"));
            r.push(clone_string(exe));
        },
    }
    assert(view_strings(r@) =~= check_words_of(e@));
    r
}

/// The shell command that checks an ensure on the host.
pub fn check_command(e: &Ensure) -> (r: String)
    ensures
        r@ == check_command_of(e@),
{
    shell_join(&check_words(e))
}

/// Whether an ensure holds, given the exit status of its check: the checks
/// for absence hold when the test fails, the others when it succeeds.
pub open spec fn check_passes_of(e: EnsureView, exit_status: u32) -> bool {
    match e {
        EnsureView::DirectoryDoesntExist { .. } => exit_status != 0,
        EnsureView::FileDoesntExist { .. } => exit_status != 0,
        _ => exit_status == 0,
    }
}

/// Whether an ensure holds, given the exit status of its check.
pub fn check_passes(e: &Ensure, exit_status: u32) -> (r: bool)
    ensures
        r == check_passes_of(e@, exit_status),
        (e@ is DirectoryDoesntExist || e@ is FileDoesntExist) ==> (r <==> exit_status != 0),
        (e@ is FileExists || e@ is DirectoryExists || e@ is ExeExists) ==> (r <==> exit_status == 0),
{
    match e {
        Ensure::DirectoryDoesntExist { .. } => exit_status != 0,
        Ensure::FileDoesntExist { .. } => exit_status != 0,
        _ => exit_status == 0,
    }
}

/// A message from the channel a command runs on.
#[derive(Debug)]
pub enum ChannelEvent {
    /// Output of the command.
    Data(Vec<u8>),
    /// Output of the command on another stream.
    ExtendedData(Vec<u8>),
    /// The remote end will send no more data.
    Eof,
    /// The channel was closed.
    Close,
    /// Flow control may be used.
    XonXoff,
    /// The command exited with a status.
    ExitStatus(u32),
    /// The command was ended by a signal.
    ExitSignal,
    /// The window was adjusted.
    WindowAdjusted,
    /// A request succeeded.
    Success,
    /// The channel yields no more messages.
    NoMore,
}

/// The value of a [`ChannelEvent`].
pub enum ChannelEventView {
    Data(Seq<u8>),
    ExtendedData(Seq<u8>),
    Eof,
    Close,
    XonXoff,
    ExitStatus(u32),
    ExitSignal,
    WindowAdjusted,
    Success,
    NoMore,
}

impl View for ChannelEvent {
    type V = ChannelEventView;

    open spec fn view(&self) -> ChannelEventView {
        match self {
            ChannelEvent::Data(b) => ChannelEventView::Data(b@),
            ChannelEvent::ExtendedData(b) => ChannelEventView::ExtendedData(b@),
            ChannelEvent::Eof => ChannelEventView::Eof,
            ChannelEvent::Close => ChannelEventView::Close,
            ChannelEvent::XonXoff => ChannelEventView::XonXoff,
            ChannelEvent::ExitStatus(s) => ChannelEventView::ExitStatus(*s),
            ChannelEvent::ExitSignal => ChannelEventView::ExitSignal,
            ChannelEvent::WindowAdjusted => ChannelEventView::WindowAdjusted,
            ChannelEvent::Success => ChannelEventView::Success,
            ChannelEvent::NoMore => ChannelEventView::NoMore,
        }
    }
}

/// What to do with a channel message.
#[derive(Debug)]
pub enum ChannelAction {
    /// Sink these logs and wait for the next message.
    Sink(PartialLogStream),
    /// Wait for the next message.
    Continue,
    /// The command is over; this is its status.
    Return(u32),
    /// The output is not UTF-8; the command fails with this error text.
    InvalidUtf8(String),
}

/// The value of a [`ChannelAction`].
pub enum ChannelActionView {
    Sink(PartialLogStreamView),
    Continue,
    Return(u32),
    InvalidUtf8(Seq<char>),
}

impl View for ChannelAction {
    type V = ChannelActionView;

    open spec fn view(&self) -> ChannelActionView {
        match self {
            ChannelAction::Sink(p) => ChannelActionView::Sink(p@),
            ChannelAction::Continue => ChannelActionView::Continue,
            ChannelAction::Return(s) => ChannelActionView::Return(*s),
            ChannelAction::InvalidUtf8(e) => ChannelActionView::InvalidUtf8(e@),
        }
    }
}

/// The status reported for a command whose channel closes without one.
pub open spec fn no_status() -> u32 {
    511
}

/// What output bytes become: their lines, or a decoding failure with the
/// error's text.
pub open spec fn output_action_of(bytes: Seq<u8>) -> ChannelActionView {
    if vstd::utf8::valid_utf8(bytes) {
        ChannelActionView::Sink(
            PartialLogStreamView::Next(split_on(vstd::utf8::decode_utf8(bytes), '\n')),
        )
    } else {
        ChannelActionView::InvalidUtf8(utf8_error_display_of(bytes))
    }
}

/// What to do with a channel message: output is split at line feeds and
/// sunk; an exit status ends the command with that status; a close, or the
/// end of the messages, ends it with status 511; anything else is passed
/// over.
pub open spec fn channel_action_of(ev: ChannelEventView) -> ChannelActionView {
    match ev {
        ChannelEventView::Data(b) => output_action_of(b),
        ChannelEventView::ExtendedData(b) => output_action_of(b),
        ChannelEventView::Close => ChannelActionView::Return(no_status()),
        ChannelEventView::NoMore => ChannelActionView::Return(no_status()),
        ChannelEventView::ExitStatus(s) => ChannelActionView::Return(s),
        _ => ChannelActionView::Continue,
    }
}

fn output_action(bytes: Vec<u8>) -> (r: ChannelAction)
    ensures
        r@ == output_action_of(bytes@),
{
    match decode_utf8(bytes) {
        Ok(s) => ChannelAction::Sink(PartialLogStream::Next(split_char(s.as_str(), '\n'))),
        Err(f) => ChannelAction::InvalidUtf8(f.display),
    }
}

/// Decides what to do with a message from a command's channel.
pub fn channel_action(ev: ChannelEvent) -> (r: ChannelAction)
    ensures
        r@ == channel_action_of(ev@),
{
    match ev {
        ChannelEvent::Data(b) => output_action(b),
        ChannelEvent::ExtendedData(b) => output_action(b),
        ChannelEvent::Close => ChannelAction::Return(511),
        ChannelEvent::NoMore => ChannelAction::Return(511),
        ChannelEvent::ExitStatus(s) => ChannelAction::Return(s),
        _ => ChannelAction::Continue,
    }
}

/// Why an SSH execution failed.
#[derive(Debug)]
pub enum SshError {
    /// The host refused the key.
    AuthenticationFailed,
    /// Some ensures of a task did not hold.
    EnsuresFailed { task: String, failed: Vec<Ensure> },
}

/// The value of an [`SshError`].
pub enum SshErrorView {
    AuthenticationFailed,
    EnsuresFailed { task: Seq<char>, failed: Seq<EnsureView> },
}

impl View for SshError {
    type V = SshErrorView;

    open spec fn view(&self) -> SshErrorView {
        match self {
            SshError::AuthenticationFailed => SshErrorView::AuthenticationFailed,
            SshError::EnsuresFailed { task, failed } => SshErrorView::EnsuresFailed {
                task: task@,
                failed: view_ensures(failed@),
            },
        }
    }
}

/// The line logged when the host refuses the key, also the error's text.
pub open spec fn auth_failed_text() -> Seq<char> {
    "ssh authentication failed!"@
}

/// The line logged before a task.
pub open spec fn executing_line(name: Seq<char>) -> Seq<char> {
    "** executing task: "@ + name
}

/// The line logged before an ensure is checked.
pub open spec fn ensuring_line(e: EnsureView) -> Seq<char> {
    "ensuring "@ + ensure_debug_of(e)
}

/// The line logged when ensures failed, also the error's text.
pub open spec fn ensures_failed_line(failed: Seq<EnsureView>) -> Seq<char> {
    "ensures failed: "@ + ensures_debug_of(failed)
}

/// The line logged first.
pub open spec fn steps_line(n: nat) -> Seq<char> {
    "* steps: "@ + decimal_of(n)
}

/// The line logged when the plan has been applied.
pub open spec fn ssh_finished_line(plan_name: Seq<char>, hostname: Seq<char>, tasks_completed: nat, n: nat) -> Seq<char> {
    "*** finished applying plan: "@ + plan_name + " -> "@ + hostname + " ("@ + decimal_of(tasks_completed)
        + "/"@ + decimal_of(n) + ")"@
}

/// The context given to a failed task's error.
pub open spec fn task_failed_context(name: Seq<char>) -> Seq<char> {
    "failed executing ssh task: "@ + name
}

impl SshError {
    /// The text of the error.
    pub fn message(&self) -> (r: String)
        ensures
            r@ == match self@ {
                SshErrorView::AuthenticationFailed => auth_failed_text(),
                SshErrorView::EnsuresFailed { failed, .. } => ensures_failed_line(failed),
            },
    {
        match self {
            SshError::AuthenticationFailed => String::from_str("ssh authentication failed!"),
            SshError::EnsuresFailed { failed, .. } => concat("ensures failed: ", ensures_debug(failed).as_str()),
        }
    }

    /// The context the error is reported in: the failing task, if any.
    pub fn context(&self) -> (r: Option<String>)
        ensures
            match self@ {
                SshErrorView::AuthenticationFailed => r is None,
                SshErrorView::EnsuresFailed { task, .. } => r matches Some(c) && c@ == task_failed_context(task),
            },
    {
        match self {
            SshError::AuthenticationFailed => None,
            SshError::EnsuresFailed { task, .. } => Some(concat("failed executing ssh task: ", task.as_str())),
        }
    }
}

/// What the caller does after sinking a step's logs.
#[derive(Debug)]
pub enum SshNext {
    /// Connect to the host and authenticate; report `Authenticated`.
    Connect,
    /// Run the command on the host, streaming its channel; report `Exited`
    /// with its status.
    Run(String),
    /// Report `Proceeded`.
    Proceed,
    /// The execution is over, with this result.
    Finish(Result<(), SshError>),
}

/// The value of an [`SshNext`].
pub enum SshNextView {
    Connect,
    Run(Seq<char>),
    Proceed,
    Finish(Result<(), SshErrorView>),
}

impl View for SshNext {
    type V = SshNextView;

    open spec fn view(&self) -> SshNextView {
        match self {
            SshNext::Connect => SshNextView::Connect,
            SshNext::Run(c) => SshNextView::Run(c@),
            SshNext::Proceed => SshNextView::Proceed,
            SshNext::Finish(Ok(())) => SshNextView::Finish(Ok(())),
            SshNext::Finish(Err(e)) => SshNextView::Finish(Err(e@)),
        }
    }
}

/// One step of an SSH execution: the stream parts to sink, in order, then
/// what to do next.
#[derive(Debug)]
pub struct SshStep {
    pub sinks: Vec<PartialLogStream>,
    pub next: SshNext,
}

/// The value of an [`SshStep`].
pub struct SshStepView {
    pub sinks: Seq<PartialLogStreamView>,
    pub next: SshNextView,
}

impl View for SshStep {
    type V = SshStepView;

    open spec fn view(&self) -> SshStepView {
        SshStepView { sinks: view_streams(self.sinks@), next: self.next@ }
    }
}

/// What the caller reports back after a step.
#[derive(Debug, Clone, Copy, PartialEq, Eq, Structural)]
pub enum SshEvent {
    /// Whether the host accepted the key.
    Authenticated(bool),
    /// The exit status of the command that ran.
    Exited(u32),
    /// The step's logs were sunk.
    Proceeded,
}

/// Where an SSH execution stands.
pub enum SshStage {
    /// Not started.
    Start,
    /// Waiting for the connection and authentication.
    Connecting,
    /// Waiting for the check of ensure `check` of task `task`; `failed` holds
    /// the task's ensures that failed so far.
    Ensuring { task: usize, check: usize, failed: Vec<Ensure> },
    /// Waiting for the command of task `task`.
    Running { task: usize },
    /// Waiting for the end-of-task logs of task `task` to be sunk.
    Completing { task: usize },
    /// Over.
    Done,
}

/// The value of an [`SshStage`].
pub enum SshStageView {
    Start,
    Connecting,
    Ensuring { task: nat, check: nat, failed: Seq<EnsureView> },
    Running { task: nat },
    Completing { task: nat },
    Done,
}

impl View for SshStage {
    type V = SshStageView;

    open spec fn view(&self) -> SshStageView {
        match self {
            SshStage::Start => SshStageView::Start,
            SshStage::Connecting => SshStageView::Connecting,
            SshStage::Ensuring { task, check, failed } => SshStageView::Ensuring {
                task: *task as nat,
                check: *check as nat,
                failed: view_ensures(failed@),
            },
            SshStage::Running { task } => SshStageView::Running { task: *task as nat },
            SshStage::Completing { task } => SshStageView::Completing { task: *task as nat },
            SshStage::Done => SshStageView::Done,
        }
    }
}

/// An execution of a plan on one host over SSH.
pub struct SshExecution<'a> {
    plan: &'a Plan,
    hostname: String,
    stage: SshStage,
    tasks_completed: u32,
}

/// The value of an [`SshExecution`].
pub struct SshExecutionView {
    pub plan: PlanView,
    pub hostname: Seq<char>,
    pub stage: SshStageView,
    pub tasks_completed: nat,
}

impl<'a> View for SshExecution<'a> {
    type V = SshExecutionView;

    closed spec fn view(&self) -> SshExecutionView {
        SshExecutionView {
            plan: self.plan@,
            hostname: self.hostname@,
            stage: self.stage@,
            tasks_completed: self.tasks_completed as nat,
        }
    }
}

/// The stage, logs and next action once `j` checks of task `i` are done
/// with `failed` failing: the next check, the failure of the task, or its
/// command.
pub open spec fn after_checks(p: PlanView, i: nat, j: nat, failed: Seq<EnsureView>) -> (SshStageView, Seq<PartialLogStreamView>, SshNextView) {
    let t = p.blueprint[i as int];
    if j < t.checks.len() {
        (
            SshStageView::Ensuring { task: i, check: j, failed: failed },
            seq![one_line(ensuring_line(t.checks[j as int]))],
            SshNextView::Run(check_command_of(t.checks[j as int])),
        )
    } else if failed.len() > 0 {
        (
            SshStageView::Done,
            seq![one_line(ensures_failed_line(failed)), PartialLogStreamView::End],
            SshNextView::Finish(Err(SshErrorView::EnsuresFailed { task: t.name, failed: failed })),
        )
    } else {
        (SshStageView::Running { task: i }, seq![], SshNextView::Run(shell_join_of(t.command)))
    }
}

/// The stage, logs and next action at the start of task `i`, with
/// `tasks_completed` tasks done: the task's first check, or the end of the
/// execution after the last task.
pub open spec fn begin_task(p: PlanView, hostname: Seq<char>, i: nat, tasks_completed: nat) -> (SshStageView, Seq<PartialLogStreamView>, SshNextView) {
    if i < p.blueprint.len() {
        let a = after_checks(p, i, 0, seq![]);
        (a.0, seq![one_line(executing_line(p.blueprint[i as int].name))] + a.1, a.2)
    } else {
        (
            SshStageView::Done,
            seq![
                one_line(ssh_finished_line(p.name, hostname, tasks_completed, p.blueprint.len())),
                PartialLogStreamView::End,
            ],
            SshNextView::Finish(Ok(())),
        )
    }
}

impl SshExecutionView {
    /// Whether the execution waits for the event.
    pub open spec fn accepts(self, ev: SshEvent) -> bool {
        match self.stage {
            SshStageView::Connecting => ev is Authenticated,
            SshStageView::Ensuring { .. } => ev is Exited,
            SshStageView::Running { .. } => ev is Exited,
            SshStageView::Completing { .. } => ev is Proceeded,
            _ => false,
        }
    }

    /// The execution is consistent: the task it is at is a task of the plan
    /// (and the check a check of that task), and the tasks before it are the
    /// ones completed.
    pub open spec fn wf(self) -> bool {
        let n = self.plan.blueprint.len();
        &&& n <= u32::MAX
        &&& self.tasks_completed <= n
        &&& match self.stage {
            SshStageView::Start => self.tasks_completed == 0,
            SshStageView::Connecting => self.tasks_completed == 0,
            SshStageView::Ensuring { task, check, .. } => task < n && check < self.plan.blueprint[task as int].checks.len()
                && self.tasks_completed == task,
            SshStageView::Running { task } => task < n && self.tasks_completed == task,
            SshStageView::Completing { task } => task < n && self.tasks_completed == task,
            SshStageView::Done => true,
        }
    }

    /// The execution after the event, and the step it takes.
    pub open spec fn after(self, ev: SshEvent) -> (SshExecutionView, SshStepView) {
        let p = self.plan;
        match self.stage {
            SshStageView::Connecting => match ev {
                SshEvent::Authenticated(true) => {
                    let b = begin_task(p, self.hostname, 0, self.tasks_completed);
                    (SshExecutionView { stage: b.0, ..self }, SshStepView { sinks: b.1, next: b.2 })
                },
                _ => (
                    SshExecutionView { stage: SshStageView::Done, ..self },
                    SshStepView {
                        sinks: seq![one_line(auth_failed_text()), PartialLogStreamView::End],
                        next: SshNextView::Finish(Err(SshErrorView::AuthenticationFailed)),
                    },
                ),
            },
            SshStageView::Ensuring { task, check, failed } => {
                let e = p.blueprint[task as int].checks[check as int];
                let code = match ev {
                    SshEvent::Exited(c) => c,
                    _ => 0,
                };
                let f = if check_passes_of(e, code) { failed } else { failed.push(e) };
                let a = after_checks(p, task, check + 1, f);
                (SshExecutionView { stage: a.0, ..self }, SshStepView { sinks: a.1, next: a.2 })
            },
            SshStageView::Running { task } => (
                SshExecutionView { stage: SshStageView::Completing { task: task }, ..self },
                SshStepView { sinks: seq![one_line(seq![])], next: SshNextView::Proceed },
            ),
            SshStageView::Completing { task } => {
                let b = begin_task(p, self.hostname, task + 1, self.tasks_completed + 1);
                (
                    SshExecutionView { stage: b.0, tasks_completed: self.tasks_completed + 1, ..self },
                    SshStepView { sinks: b.1, next: b.2 },
                )
            },
            _ => (self, SshStepView { sinks: seq![], next: SshNextView::Proceed }),
        }
    }
}

impl<'a> SshExecution<'a> {
    /// An execution of `plan` on the host `hostname`, not started.
    pub fn new(plan: &'a Plan, hostname: String) -> (r: Self)
        requires
            plan@.blueprint.len() <= u32::MAX,
        ensures
            r@ == (SshExecutionView {
                plan: plan@,
                hostname: hostname@,
                stage: SshStageView::Start,
                tasks_completed: 0,
            }),
            r@.wf(),
    {
        SshExecution { plan, hostname, stage: SshStage::Start, tasks_completed: 0 }
    }

    /// The number of tasks completed so far.
    pub fn tasks_completed(&self) -> (r: u32)
        ensures
            r == self@.tasks_completed,
    {
        self.tasks_completed
    }

    /// The index of the task the execution is at, while it is at one.
    pub fn task_in_progress(&self) -> (r: Option<usize>)
        ensures
            r == match self@.stage {
                SshStageView::Ensuring { task, .. } => Some(task as usize),
                SshStageView::Running { task } => Some(task as usize),
                SshStageView::Completing { task } => Some(task as usize),
                _ => None::<usize>,
            },
    {
        match &self.stage {
            SshStage::Ensuring { task, .. } => Some(*task),
            SshStage::Running { task } => Some(*task),
            SshStage::Completing { task } => Some(*task),
            _ => None,
        }
    }

    /// Starts the execution: log the number of steps, then connect.
    pub fn start(&mut self) -> (r: SshStep)
        requires
            old(self)@.wf(),
            old(self)@.stage is Start,
        ensures
            final(self)@ == (SshExecutionView { stage: SshStageView::Connecting, ..old(self)@ }),
            final(self)@.wf(),
            r@ == (SshStepView {
                sinks: seq![one_line(steps_line(old(self)@.plan.blueprint.len()))],
                next: SshNextView::Connect,
            }),
    {
        let mut sinks: Vec<PartialLogStream> = Vec::new();
        let n = decimal(self.plan.blueprint().len() as u64);
        sinks.push(log_line(concat("* steps: ", n.as_str())));
        self.stage = SshStage::Connecting;
        let r = SshStep { sinks, next: SshNext::Connect };
        assert(r@.sinks =~= seq![one_line(steps_line(old(self)@.plan.blueprint.len()))]);
        r
    }

    fn after_checks_exec(&self, i: usize, j: usize, failed: Vec<Ensure>) -> (r: (SshStage, Vec<PartialLogStream>, SshNext))
        requires
            i < self@.plan.blueprint.len(),
            j <= self@.plan.blueprint[i as int].checks.len(),
        ensures
            (r.0@, view_streams(r.1@), r.2@) == after_checks(self@.plan, i as nat, j as nat, view_ensures(failed@)),
    {
        let task = &self.plan.blueprint()[i];
        let checks = task.checks();
        let mut sinks: Vec<PartialLogStream> = Vec::new();
        if j < checks.len() {
            let e = &checks[j];
            sinks.push(log_line(concat("ensuring ", ensure_debug(e).as_str())));
            let next = SshNext::Run(check_command(e));
            assert(view_streams(sinks@) =~= seq![one_line(ensuring_line(e@))]);
            (SshStage::Ensuring { task: i, check: j, failed }, sinks, next)
        } else if failed.len() > 0 {
            sinks.push(log_line(concat("ensures failed: ", ensures_debug(&failed).as_str())));
            sinks.push(PartialLogStream::End);
            assert(view_streams(sinks@) =~= seq![
                one_line(ensures_failed_line(view_ensures(failed@))),
                PartialLogStreamView::End,
            ]);
            let name = clone_string(task.name());
            (SshStage::Done, sinks, SshNext::Finish(Err(SshError::EnsuresFailed { task: name, failed })))
        } else {
            assert(view_streams(sinks@) =~= Seq::<PartialLogStreamView>::empty());
            (SshStage::Running { task: i }, sinks, SshNext::Run(shell_join(task.command())))
        }
    }

    fn begin_task_exec(&self, i: usize, tasks_completed: u32) -> (r: (SshStage, Vec<PartialLogStream>, SshNext))
        requires
            i <= self@.plan.blueprint.len(),
        ensures
            (r.0@, view_streams(r.1@), r.2@) == begin_task(self@.plan, self@.hostname, i as nat, tasks_completed as nat),
    {
        let blueprint = self.plan.blueprint();
        if i < blueprint.len() {
            let none: Vec<Ensure> = Vec::new();
            assert(view_ensures(none@) =~= Seq::<EnsureView>::empty());
            let (stage, rest, next) = self.after_checks_exec(i, 0, none);
            let mut sinks: Vec<PartialLogStream> = Vec::new();
            sinks.push(log_line(concat("** executing task: ", blueprint[i].name().as_str())));
            let ghost rest_view = view_streams(rest@);
            let mut rest = rest;
            sinks.append(&mut rest);
            assert(view_streams(sinks@) =~= seq![one_line(executing_line(self@.plan.blueprint[i as int].name))] + rest_view);
            (stage, sinks, next)
        } else {
            let mut line = concat("*** finished applying plan: ", self.plan.name().as_str());
            line.append(" -> ");
            line.append(self.hostname.as_str());
            line.append(" (");
            line.append(decimal(tasks_completed as u64).as_str());
            line.append("/");
            line.append(decimal(blueprint.len() as u64).as_str());
            line.append(")");
            let mut sinks: Vec<PartialLogStream> = Vec::new();
            sinks.push(log_line(line));
            sinks.push(PartialLogStream::End);
            assert(view_streams(sinks@) =~= seq![
                one_line(ssh_finished_line(self@.plan.name, self@.hostname, tasks_completed as nat, self@.plan.blueprint.len())),
                PartialLogStreamView::End,
            ]);
            (SshStage::Done, sinks, SshNext::Finish(Ok(())))
        }
    }

    /// Takes the step that follows the event the caller reports.
    pub fn step(&mut self, ev: SshEvent) -> (r: SshStep)
        requires
            old(self)@.wf(),
            old(self)@.accepts(ev),
        ensures
            (final(self)@, r@) == old(self)@.after(ev),
            final(self)@.wf(),
    {
        let mut stage = SshStage::Done;
        std::mem::swap(&mut stage, &mut self.stage);
        match stage {
            SshStage::Connecting => match ev {
                SshEvent::Authenticated(true) => {
                    let (stage, sinks, next) = self.begin_task_exec(0, self.tasks_completed);
                    self.stage = stage;
                    SshStep { sinks, next }
                },
                _ => {
                    let mut sinks: Vec<PartialLogStream> = Vec::new();
                    sinks.push(log_line(String::from_str("ssh authentication failed!")));
                    sinks.push(PartialLogStream::End);
                    assert(view_streams(sinks@) =~= seq![one_line(auth_failed_text()), PartialLogStreamView::End]);
                    SshStep { sinks, next: SshNext::Finish(Err(SshError::AuthenticationFailed)) }
                },
            },
            SshStage::Ensuring { task, check, failed } => {
                let code = match ev {
                    SshEvent::Exited(c) => c,
                    _ => 0,
                };
                let checks = self.plan.blueprint()[task].checks();
                let n_checks = checks.len();
                assert(check < view_ensures(checks@).len());
                assert(check < n_checks);
                let e = &checks[check];
                let mut failed = failed;
                if !check_passes(e, code) {
                    let ghost before = view_ensures(failed@);
                    failed.push(e.clone());
                    assert(view_ensures(failed@) =~= before.push(e@));
                }
                let (stage, sinks, next) = self.after_checks_exec(task, check + 1, failed);
                self.stage = stage;
                SshStep { sinks, next }
            },
            SshStage::Running { task } => {
                let mut sinks: Vec<PartialLogStream> = Vec::new();
                sinks.push(log_line(String::new()));
                assert(view_streams(sinks@) =~= seq![one_line(seq![])]);
                self.stage = SshStage::Completing { task };
                SshStep { sinks, next: SshNext::Proceed }
            },
            SshStage::Completing { task } => {
                let tc = self.tasks_completed + 1;
                let (stage, sinks, next) = self.begin_task_exec(task + 1, tc);
                self.stage = stage;
                self.tasks_completed = tc;
                SshStep { sinks, next }
            },
            _ => {
                assert(false);
                SshStep { sinks: Vec::new(), next: SshNext::Proceed }
            },
        }
    }
}


/// Every step of an SSH execution keeps it consistent. The execution is
/// over exactly when the step finishes it; it finishes successfully only with
/// every task of the plan completed; the step that finishes closes the log
/// stream, with the end marker last and once, and no other step sinks it;
/// and a task is counted as completed only after its command ran and the logs
/// that follow it were sunk, one task at a time.
pub proof fn lemma_ssh_step(s: SshExecutionView, ev: SshEvent)
    requires
        s.wf(),
        s.accepts(ev),
    ensures
        s.after(ev).0.wf(),
        s.after(ev).0.plan == s.plan,
        s.after(ev).0.hostname == s.hostname,
        s.after(ev).0.stage is Done <==> s.after(ev).1.next is Finish,
        s.after(ev).1.next == SshNextView::Finish(Ok(())) ==> s.after(ev).0.tasks_completed
            == s.plan.blueprint.len(),
        s.after(ev).1.next is Finish ==> closes_stream(s.after(ev).1.sinks),
        !(s.after(ev).1.next is Finish) ==> keeps_stream_open(s.after(ev).1.sinks),
        s.after(ev).0.tasks_completed == s.tasks_completed || (s.after(ev).0.tasks_completed
            == s.tasks_completed + 1 && s.stage is Completing),
{
    let p = s.plan;
    let (s2, st) = s.after(ev);
    match s.stage {
        SshStageView::Connecting => {
            if ev == SshEvent::Authenticated(true) {
                lemma_begin_task(p, s.hostname, 0, s.tasks_completed);
            } else {
                assert(st.sinks[0] != PartialLogStreamView::End);
            }
        },
        SshStageView::Ensuring { task, check, failed } => {
            let e = p.blueprint[task as int].checks[check as int];
            let code = match ev {
                SshEvent::Exited(c) => c,
                _ => 0,
            };
            let f = if check_passes_of(e, code) { failed } else { failed.push(e) };
            lemma_after_checks(p, task, check + 1, f);
        },
        SshStageView::Running { task } => {
            assert(st.sinks[0] != PartialLogStreamView::End);
        },
        SshStageView::Completing { task } => {
            lemma_begin_task(p, s.hostname, task + 1, s.tasks_completed + 1);
        },
        _ => {},
    }
}

proof fn lemma_after_checks(p: PlanView, i: nat, j: nat, failed: Seq<EnsureView>)
    requires
        i < p.blueprint.len(),
        j <= p.blueprint[i as int].checks.len(),
    ensures
        after_checks(p, i, j, failed).0 is Done <==> after_checks(p, i, j, failed).2 is Finish,
        after_checks(p, i, j, failed).2 is Finish ==> after_checks(p, i, j, failed).2 != SshNextView::Finish(Ok(())),
        after_checks(p, i, j, failed).2 is Finish ==> closes_stream(after_checks(p, i, j, failed).1),
        !(after_checks(p, i, j, failed).2 is Finish) ==> keeps_stream_open(after_checks(p, i, j, failed).1),
        match after_checks(p, i, j, failed).0 {
            SshStageView::Ensuring { task, check, .. } => task == i && check < p.blueprint[i as int].checks.len(),
            SshStageView::Running { task } => task == i,
            SshStageView::Done => true,
            _ => false,
        },
{
    let a = after_checks(p, i, j, failed);
    if a.1.len() > 0 {
        assert(a.1[0] != PartialLogStreamView::End);
    }
}

proof fn lemma_begin_task(p: PlanView, hostname: Seq<char>, i: nat, tc: nat)
    requires
        i <= p.blueprint.len(),
    ensures
        begin_task(p, hostname, i, tc).0 is Done <==> begin_task(p, hostname, i, tc).2 is Finish,
        begin_task(p, hostname, i, tc).2 == SshNextView::Finish(Ok(())) ==> i == p.blueprint.len(),
        begin_task(p, hostname, i, tc).2 is Finish ==> closes_stream(begin_task(p, hostname, i, tc).1),
        !(begin_task(p, hostname, i, tc).2 is Finish) ==> keeps_stream_open(begin_task(p, hostname, i, tc).1),
        match begin_task(p, hostname, i, tc).0 {
            SshStageView::Ensuring { task, check, .. } => task == i && check < p.blueprint[i as int].checks.len(),
            SshStageView::Running { task } => task == i,
            SshStageView::Done => true,
            _ => false,
        },
{
    let b = begin_task(p, hostname, i, tc);
    if i < p.blueprint.len() {
        lemma_after_checks(p, i, 0, seq![]);
        let a = after_checks(p, i, 0, seq![]);
        let head = seq![one_line(executing_line(p.blueprint[i as int].name))];
        assert(head[0] != PartialLogStreamView::End);
        lemma_stream_concat(head, a.1);
    } else {
        assert(b.1[0] != PartialLogStreamView::End);
    }
}

/// An ensure holds exactly when its check's exit status says so: an ensure
/// that a path does not exist holds when `test -e` on it fails, and any other
/// ensure holds when its test (`test -f`, `test -d` or `which`) succeeds.
pub proof fn lemma_check_passes(e: EnsureView, exit_status: u32)
    ensures
        (e is DirectoryDoesntExist || e is FileDoesntExist) ==> (check_passes_of(e, exit_status) <==> exit_status != 0),
        (e is FileExists || e is DirectoryExists || e is ExeExists) ==> (check_passes_of(e, exit_status) <==> exit_status == 0),
        (e is DirectoryDoesntExist || e is FileDoesntExist) ==> check_words_of(e)[1] == "-e"@,
        e is FileExists ==> check_words_of(e)[1] == "-f"@,
        e is DirectoryExists ==> check_words_of(e)[1] == "-d"@,
        e is ExeExists ==> check_words_of(e)[0] == "which"@,
{
}

/// An SSH execution runs a task's command only once every check of the task
/// has run and none of its ensures failed. Once every check has run and some
/// failed, the execution stops with exactly those failures and closes the log
/// stream; while checks remain, the next one is run.
pub proof fn lemma_ssh_command_needs_every_ensure(p: PlanView, i: nat, j: nat, failed: Seq<EnsureView>)
    requires
        i < p.blueprint.len(),
        j <= p.blueprint[i as int].checks.len(),
    ensures
        after_checks(p, i, j, failed).0 is Running ==> j == p.blueprint[i as int].checks.len() && failed.len() == 0,
        after_checks(p, i, j, failed).0 is Running ==> after_checks(p, i, j, failed).2 == SshNextView::Run(
            shell_join_of(p.blueprint[i as int].command),
        ),
        j == p.blueprint[i as int].checks.len() && failed.len() > 0 ==> after_checks(p, i, j, failed).0 is Done
            && after_checks(p, i, j, failed).2 == SshNextView::Finish(
            Err(SshErrorView::EnsuresFailed { task: p.blueprint[i as int].name, failed: failed }),
        ) && after_checks(p, i, j, failed).1.last() == PartialLogStreamView::End,
        j < p.blueprint[i as int].checks.len() ==> after_checks(p, i, j, failed).2 == SshNextView::Run(
            check_command_of(p.blueprint[i as int].checks[j as int]),
        ),
{
}

/// A step of an SSH execution that starts a task's command follows either
/// the start of a task with no ensures, or the last check of the task, which
/// passed, with no earlier check of it failing.
pub proof fn lemma_ssh_runs_after_passing_checks(s: SshExecutionView, ev: SshEvent)
    requires
        s.wf(),
        s.accepts(ev),
        s.after(ev).0.stage is Running,
    ensures
        s.stage matches SshStageView::Ensuring { task, check, failed } ==> {
            &&& failed.len() == 0
            &&& check + 1 == s.plan.blueprint[task as int].checks.len()
            &&& ev matches SshEvent::Exited(code) && {
                let e = s.plan.blueprint[task as int].checks[check as int];
                if e is DirectoryDoesntExist || e is FileDoesntExist { code != 0 } else { code == 0 }
            }
        },
        !(s.stage is Ensuring) ==> s.plan.blueprint[s.after(ev).0.stage->Running_task as int].checks.len() == 0,
{
    let p = s.plan;
    match s.stage {
        SshStageView::Ensuring { task, check, failed } => {
            let e = p.blueprint[task as int].checks[check as int];
            let code = match ev {
                SshEvent::Exited(c) => c,
                _ => 0,
            };
            lemma_check_passes(e, code);
            let f = if check_passes_of(e, code) { failed } else { failed.push(e) };
            lemma_ssh_command_needs_every_ensure(p, task, check + 1, f);
        },
        SshStageView::Connecting => {
            let b = begin_task(p, s.hostname, 0, s.tasks_completed);
            if 0 < p.blueprint.len() {
                lemma_ssh_command_needs_every_ensure(p, 0, 0, seq![]);
            }
        },
        SshStageView::Completing { task } => {
            if task + 1 < p.blueprint.len() {
                lemma_ssh_command_needs_every_ensure(p, task + 1, 0, seq![]);
            }
        },
        _ => {},
    }
}
} // verus!
