//! The local executor: its context, its log source and the decisions it
//! takes while it runs a plan's commands on the local machine.

use vstd::prelude::*;
use vstd::string::StringExecFns;
use crate::text::view_strings;
use crate::text::clone_string;
use crate::text::concat;
use crate::text::decimal;
use crate::text::decimal_of;
use crate::text::decode_utf8;
use crate::text::utf8_error_debug_of;
use crate::plan::Plan;
use crate::plan::PlanView;
use crate::plan::Ensure;
use crate::plan::EnsureView;
use crate::plan::view_ensures;
use crate::plan::is_raw_command;
use crate::text::clone_strings;
use super::closes_stream;
use super::keeps_stream_open;
use super::lemma_stream_concat;
use super::ssh::check_command;
use super::ssh::check_command_of;
use super::ssh::check_passes;
use super::ssh::check_passes_of;
use super::ssh::ensure_debug;
use super::ssh::ensures_debug;
use super::ssh::ensuring_line;
use super::ssh::ensures_failed_line;
use super::ExecutionContext;
use super::LogError;
use super::LogSource;
use super::PartialLogStream;
use super::PartialLogStreamView;
use super::log_line;
use super::one_line;
use super::view_streams;

verus! {

/// The context of a local execution.
#[derive(Debug)]
pub struct SimpleExecutionContext<'a> {
    name: String,
    plan: &'a Plan,
}

/// The value of an execution context.
pub struct ExecutionContextView {
    pub name: Seq<char>,
    pub plan: PlanView,
}

impl<'a> View for SimpleExecutionContext<'a> {
    type V = ExecutionContextView;

    closed spec fn view(&self) -> ExecutionContextView {
        ExecutionContextView { name: self.name@, plan: self.plan@ }
    }
}

impl<'a> SimpleExecutionContext<'a> {
    /// A context named `name` for executing `plan`.
    pub fn new(name: &str, plan: &'a Plan) -> (r: Self)
        ensures
            r@ == (ExecutionContextView { name: name@, plan: plan@ }),
    {
        SimpleExecutionContext { name: String::from_str(name), plan }
    }
}

impl<'a> Clone for SimpleExecutionContext<'a> {
    fn clone(&self) -> (r: Self)
        ensures
            r@ == self@,
    {
        SimpleExecutionContext { name: clone_string(&self.name), plan: self.plan }
    }
}

impl<'a> ExecutionContext for SimpleExecutionContext<'a> {
    fn name(&self) -> (r: &str)
        ensures
            r@ == self@.name,
    {
        self.name.as_str()
    }

    fn plan(&self) -> (r: &Plan)
        ensures
            r@ == self@.plan,
    {
        self.plan
    }
}

/// The receiving end of a tokio channel.
#[verifier::external_type_specification]
#[verifier::external_body]
#[verifier::reject_recursive_types(T)]
pub struct ExReceiver<T>(tokio::sync::mpsc::Receiver<T>);

/// What an attempt to receive from a channel found.
#[derive(Debug)]
pub enum Received<T> {
    /// A value that was waiting in the channel.
    Message(T),
    /// Nothing is waiting, and senders remain.
    Empty,
    /// Nothing is waiting, and every sender is gone.
    Disconnected,
}

/// Takes the next value waiting in the channel, without waiting.
///
/// Trusted: tokio's `Receiver::try_recv`. What comes back depends on the
/// other end of the channel, so nothing is stated of it.
#[verifier::external_body]
fn try_recv<T>(rx: &mut tokio::sync::mpsc::Receiver<T>) -> Received<T> {
    match rx.try_recv() {
        Ok(v) => Received::Message(v),
        Err(tokio::sync::mpsc::error::TryRecvError::Empty) => Received::Empty,
        Err(tokio::sync::mpsc::error::TryRecvError::Disconnected) => Received::Disconnected,
    }
}

/// The value of a [`Received`] stream part.
pub enum ReceivedView {
    Message(PartialLogStreamView),
    Empty,
    Disconnected,
}

/// The view of what a log channel yielded.
pub open spec fn view_received(r: Received<PartialLogStream>) -> ReceivedView {
    match r {
        Received::Message(m) => ReceivedView::Message(m@),
        Received::Empty => ReceivedView::Empty,
        Received::Disconnected => ReceivedView::Disconnected,
    }
}

/// What a log source that has not ended answers for what its channel
/// yielded, and whether it has ended afterwards.
pub open spec fn source_answer(r: ReceivedView) -> (bool, Result<PartialLogStreamView, LogError>) {
    match r {
        ReceivedView::Message(PartialLogStreamView::Next(logs)) => (false, Ok(PartialLogStreamView::Next(logs))),
        ReceivedView::Message(PartialLogStreamView::End) => (true, Ok(PartialLogStreamView::End)),
        ReceivedView::Empty => (false, Ok(PartialLogStreamView::Next(seq![]))),
        ReceivedView::Disconnected => (false, Err(LogError::SinkLost)),
    }
}

/// The view of a result of reading a log source.
pub open spec fn view_source_result(r: Result<PartialLogStream, LogError>) -> Result<PartialLogStreamView, LogError> {
    match r {
        Ok(p) => Ok(p@),
        Err(e) => Err(e),
    }
}

/// What a log source that has not ended answers for what its channel
/// yielded: the logs that were waiting, no logs when nothing was waiting, the
/// end of the stream, or an error when the sink is gone. The flag says
/// whether the source has ended.
pub fn source_outcome(received: Received<PartialLogStream>) -> (r: (bool, Result<PartialLogStream, LogError>))
    ensures
        (r.0, view_source_result(r.1)) == source_answer(view_received(received)),
{
    match received {
        Received::Message(PartialLogStream::Next(logs)) => {
            let mut out: Vec<String> = Vec::new();
            let mut i: usize = 0;
            while i < logs.len()
                invariant
                    i <= logs@.len(),
                    out@.len() == i,
                    forall|k: int| 0 <= k < i ==> out@[k]@ == logs@[k]@,
                decreases logs.len() - i,
            {
                out.push(clone_string(&logs[i]));
                i = i + 1;
            }
            assert(view_strings(out@) =~= view_strings(logs@));
            (false, Ok(PartialLogStream::Next(out)))
        },
        Received::Message(PartialLogStream::End) => (true, Ok(PartialLogStream::End)),
        Received::Empty => {
            let empty: Vec<String> = Vec::new();
            assert(view_strings(empty@) =~= Seq::<Seq<char>>::empty());
            (false, Ok(PartialLogStream::Next(empty)))
        },
        Received::Disconnected => (false, Err(LogError::SinkLost)),
    }
}

/// The reading end of a local executor's log stream.
#[derive(Debug)]
pub struct SimpleLogSource {
    rx: tokio::sync::mpsc::Receiver<PartialLogStream>,
    ended: bool,
}

impl SimpleLogSource {
    /// Whether the end of the stream has been read.
    pub closed spec fn ended(&self) -> bool {
        self.ended
    }

    /// The channel the source reads from.
    pub closed spec fn channel(&self) -> tokio::sync::mpsc::Receiver<PartialLogStream> {
        self.rx
    }

    /// A source reading from the given channel.
    pub fn new(rx: tokio::sync::mpsc::Receiver<PartialLogStream>) -> (r: Self)
        ensures
            r.channel() == rx,
            !r.ended(),
    {
        SimpleLogSource { rx, ended: false }
    }
}

impl LogSource for SimpleLogSource {
    /// Reads the next part of the stream without waiting. After the end of
    /// the stream has been read, every read fails. Otherwise the answer is
    /// `source_outcome` of what the channel yielded: the waiting logs, no
    /// logs, the end, or the loss of the sink.
    fn source(&mut self) -> (r: Result<PartialLogStream, LogError>)
        ensures
            old(self).ended() ==> r == Err::<PartialLogStream, LogError>(LogError::AlreadyEnded)
                && final(self).ended() && final(self).channel() == old(self).channel(),
            !old(self).ended() ==> exists|received: ReceivedView|
                (final(self).ended(), view_source_result(r)) == #[trigger] source_answer(received),
            !old(self).ended() ==> (final(self).ended() <==> r matches Ok(PartialLogStream::End)),
            !old(self).ended() ==> (r matches Err(e) ==> e == LogError::SinkLost),
    {
        if self.ended {
            return Err(LogError::AlreadyEnded);
        }
        let received = try_recv(&mut self.rx);
        let ghost seen = view_received(received);
        let (ended, answer) = source_outcome(received);
        self.ended = ended;
        assert((self.ended, view_source_result(answer)) == source_answer(seen));
        answer
    }
}

/// The text a local executor logs for a chunk of a command's output: the
/// chunk as text, or `got: ` and the `{:#?}` rendering of why it is not UTF-8.
pub fn chunk_text(chunk: Vec<u8>) -> (r: String)
    ensures
        vstd::utf8::valid_utf8(chunk@) ==> r@ == vstd::utf8::decode_utf8(chunk@),
        !vstd::utf8::valid_utf8(chunk@) ==> r@ == "got: "@ + utf8_error_debug_of(chunk@),
{
    match decode_utf8(chunk) {
        Ok(s) => s,
        Err(f) => concat("got: ", f.debug.as_str()),
    }
}

/// The lines a local executor prints when it starts applying a plan.
pub open spec fn simple_header(p: PlanView) -> Seq<Seq<char>> {
    seq!["* applying plan: "@ + p.name, "* steps: "@ + decimal_of(p.blueprint.len())]
}

/// The line a local executor prints when it starts a task.
pub open spec fn simple_task_line(name: Seq<char>) -> Seq<char> {
    "** Executing task: "@ + name
}

/// The line a local executor prints when it has applied a plan.
pub open spec fn simple_finish_line(p: PlanView, tasks_completed: nat) -> Seq<char> {
    "* finished applying plan: "@ + p.name + " ("@ + decimal_of(tasks_completed) + "/"@ + decimal_of(
        p.blueprint.len(),
    ) + ")"@
}

/// Why a local execution failed.
#[derive(Debug)]
pub enum SimpleError {
    /// Some ensures of a task did not hold; its command was not run.
    EnsuresFailed { task: String, failed: Vec<Ensure> },
}

/// The value of a [`SimpleError`].
pub enum SimpleErrorView {
    EnsuresFailed { task: Seq<char>, failed: Seq<EnsureView> },
}

impl View for SimpleError {
    type V = SimpleErrorView;

    open spec fn view(&self) -> SimpleErrorView {
        match self {
            SimpleError::EnsuresFailed { task, failed } => SimpleErrorView::EnsuresFailed {
                task: task@,
                failed: view_ensures(failed@),
            },
        }
    }
}

/// The context given to a failed task's error.
pub open spec fn simple_failed_context(name: Seq<char>) -> Seq<char> {
    "failed executing task: "@ + name
}

impl SimpleError {
    /// The text of the error: the ensures that failed.
    pub fn message(&self) -> (r: String)
        ensures
            r@ == match self@ {
                SimpleErrorView::EnsuresFailed { failed, .. } => ensures_failed_line(failed),
            },
    {
        match self {
            SimpleError::EnsuresFailed { failed, .. } => concat("ensures failed: ", ensures_debug(failed).as_str()),
        }
    }

    /// The context the error is reported in: the task that failed.
    pub fn context(&self) -> (r: String)
        ensures
            r@ == match self@ {
                SimpleErrorView::EnsuresFailed { task, .. } => simple_failed_context(task),
            },
    {
        match self {
            SimpleError::EnsuresFailed { task, .. } => concat("failed executing task: ", task.as_str()),
        }
    }
}

/// What the caller of a local execution does after printing a step's lines
/// and sinking its stream parts.
#[derive(Debug)]
pub enum SimpleNext {
    /// Run the command line with `sh` on this machine, streaming its output;
    /// report `Exited` with its status.
    Check(String),
    /// Run the command whose words these are (the first the program, the
    /// rest its arguments), streaming its output; report `Ran`.
    Run(Vec<String>),
    /// The execution is over, with this result.
    Finish(Result<(), SimpleError>),
}

/// The value of a [`SimpleNext`].
pub enum SimpleNextView {
    Check(Seq<char>),
    Run(Seq<Seq<char>>),
    Finish(Result<(), SimpleErrorView>),
}

impl View for SimpleNext {
    type V = SimpleNextView;

    open spec fn view(&self) -> SimpleNextView {
        match self {
            SimpleNext::Check(c) => SimpleNextView::Check(c@),
            SimpleNext::Run(words) => SimpleNextView::Run(view_strings(words@)),
            SimpleNext::Finish(Ok(())) => SimpleNextView::Finish(Ok(())),
            SimpleNext::Finish(Err(e)) => SimpleNextView::Finish(Err(e@)),
        }
    }
}

/// One step of a local execution: the lines to print, the stream parts to
/// sink, in order, then what to do next.
#[derive(Debug)]
pub struct SimpleStep {
    pub prints: Vec<String>,
    pub sinks: Vec<PartialLogStream>,
    pub next: SimpleNext,
}

/// The value of a [`SimpleStep`].
pub struct SimpleStepView {
    pub prints: Seq<Seq<char>>,
    pub sinks: Seq<PartialLogStreamView>,
    pub next: SimpleNextView,
}

impl View for SimpleStep {
    type V = SimpleStepView;

    open spec fn view(&self) -> SimpleStepView {
        SimpleStepView { prints: view_strings(self.prints@), sinks: view_streams(self.sinks@), next: self.next@ }
    }
}

/// What the caller reports back after a step.
#[derive(Debug, Clone, Copy, PartialEq, Eq, Structural)]
pub enum SimpleEvent {
    /// The exit status of the check that ran.
    Exited(u32),
    /// The task's command ran.
    Ran,
}

/// Where a local execution stands.
pub enum SimpleStage {
    /// Not started.
    Start,
    /// Waiting for the check of ensure `check` of task `task`; `failed`
    /// holds the task's ensures that failed so far.
    Checking { task: usize, check: usize, failed: Vec<Ensure> },
    /// Waiting for the command of task `task`.
    Running { task: usize },
    /// Over.
    Done,
}

/// The value of a [`SimpleStage`].
pub enum SimpleStageView {
    Start,
    Checking { task: nat, check: nat, failed: Seq<EnsureView> },
    Running { task: nat },
    Done,
}

impl View for SimpleStage {
    type V = SimpleStageView;

    open spec fn view(&self) -> SimpleStageView {
        match self {
            SimpleStage::Start => SimpleStageView::Start,
            SimpleStage::Checking { task, check, failed } => SimpleStageView::Checking {
                task: *task as nat,
                check: *check as nat,
                failed: view_ensures(failed@),
            },
            SimpleStage::Running { task } => SimpleStageView::Running { task: *task as nat },
            SimpleStage::Done => SimpleStageView::Done,
        }
    }
}

/// A local execution of a plan: each task's ensures are checked on this
/// machine before its command runs.
pub struct SimpleExecution<'a> {
    plan: &'a Plan,
    stage: SimpleStage,
    tasks_completed: u32,
}

/// The value of a [`SimpleExecution`].
pub struct SimpleExecutionView {
    pub plan: PlanView,
    pub stage: SimpleStageView,
    pub tasks_completed: nat,
}

impl<'a> View for SimpleExecution<'a> {
    type V = SimpleExecutionView;

    closed spec fn view(&self) -> SimpleExecutionView {
        SimpleExecutionView { plan: self.plan@, stage: self.stage@, tasks_completed: self.tasks_completed as nat }
    }
}

/// The stage, stream parts and next action once `j` checks of task `i` are
/// done with `failed` failing: the next check, the failure of the task (which
/// closes the stream), or its command.
pub open spec fn simple_after_checks(p: PlanView, i: nat, j: nat, failed: Seq<EnsureView>) -> (SimpleStageView, Seq<PartialLogStreamView>, SimpleNextView) {
    let t = p.blueprint[i as int];
    if j < t.checks.len() {
        (
            SimpleStageView::Checking { task: i, check: j, failed: failed },
            seq![one_line(ensuring_line(t.checks[j as int]))],
            SimpleNextView::Check(check_command_of(t.checks[j as int])),
        )
    } else if failed.len() > 0 {
        (
            SimpleStageView::Done,
            seq![one_line(ensures_failed_line(failed)), PartialLogStreamView::End],
            SimpleNextView::Finish(Err(SimpleErrorView::EnsuresFailed { task: t.name, failed: failed })),
        )
    } else {
        (SimpleStageView::Running { task: i }, seq![], SimpleNextView::Run(t.command))
    }
}

/// The stage, printed lines, stream parts and next action at the start of
/// task `i`, with `tasks_completed` tasks done: the command of a raw command
/// task at once, the first check of another task, or the end of the
/// execution (which closes the stream) after the last task.
pub open spec fn simple_begin_task(p: PlanView, i: nat, tasks_completed: nat) -> (SimpleStageView, Seq<Seq<char>>, Seq<PartialLogStreamView>, SimpleNextView) {
    if i < p.blueprint.len() && is_raw_command(p.blueprint[i as int]) {
        (
            SimpleStageView::Running { task: i },
            seq![simple_task_line(p.blueprint[i as int].name)],
            seq![],
            SimpleNextView::Run(p.blueprint[i as int].command),
        )
    } else if i < p.blueprint.len() {
        let a = simple_after_checks(p, i, 0, seq![]);
        (a.0, seq![simple_task_line(p.blueprint[i as int].name)], a.1, a.2)
    } else {
        (
            SimpleStageView::Done,
            seq![simple_finish_line(p, tasks_completed)],
            seq![PartialLogStreamView::End],
            SimpleNextView::Finish(Ok(())),
        )
    }
}

impl SimpleExecutionView {
    /// The progress is consistent: the task it is at is a task of the plan
    /// (and the check a check of that task), and the tasks before it are the
    /// ones completed.
    pub open spec fn wf(self) -> bool {
        let n = self.plan.blueprint.len();
        &&& n <= u32::MAX
        &&& self.tasks_completed <= n
        &&& match self.stage {
            SimpleStageView::Start => self.tasks_completed == 0,
            SimpleStageView::Checking { task, check, .. } => task < n && check < self.plan.blueprint[task as int].checks.len()
                && self.tasks_completed == task && !is_raw_command(self.plan.blueprint[task as int]),
            SimpleStageView::Running { task } => task < n && self.tasks_completed == task,
            SimpleStageView::Done => true,
        }
    }

    /// Whether the execution waits for the event.
    pub open spec fn accepts(self, ev: SimpleEvent) -> bool {
        match self.stage {
            SimpleStageView::Checking { .. } => ev is Exited,
            SimpleStageView::Running { .. } => ev is Ran,
            _ => false,
        }
    }

    /// The execution once started, and the step it takes.
    pub open spec fn started(self) -> (SimpleExecutionView, SimpleStepView) {
        let b = simple_begin_task(self.plan, 0, 0);
        (
            SimpleExecutionView { stage: b.0, ..self },
            SimpleStepView { prints: simple_header(self.plan) + b.1, sinks: b.2, next: b.3 },
        )
    }

    /// The execution after the event, and the step it takes.
    pub open spec fn after(self, ev: SimpleEvent) -> (SimpleExecutionView, SimpleStepView) {
        let p = self.plan;
        match self.stage {
            SimpleStageView::Checking { task, check, failed } => {
                let e = p.blueprint[task as int].checks[check as int];
                let code = match ev {
                    SimpleEvent::Exited(c) => c,
                    _ => 0,
                };
                let f = if check_passes_of(e, code) { failed } else { failed.push(e) };
                let a = simple_after_checks(p, task, check + 1, f);
                (SimpleExecutionView { stage: a.0, ..self }, SimpleStepView { prints: seq![], sinks: a.1, next: a.2 })
            },
            SimpleStageView::Running { task } => {
                let b = simple_begin_task(p, task + 1, self.tasks_completed + 1);
                (
                    SimpleExecutionView { stage: b.0, tasks_completed: self.tasks_completed + 1, ..self },
                    SimpleStepView { prints: b.1, sinks: seq![one_line(seq![])] + b.2, next: b.3 },
                )
            },
            _ => (self, SimpleStepView { prints: seq![], sinks: seq![], next: SimpleNextView::Finish(Ok(())) }),
        }
    }
}

impl<'a> SimpleExecution<'a> {
    /// A local execution of `plan`, not started.
    pub fn new(plan: &'a Plan) -> (r: Self)
        requires
            plan@.blueprint.len() <= u32::MAX,
        ensures
            r@ == (SimpleExecutionView { plan: plan@, stage: SimpleStageView::Start, tasks_completed: 0 }),
            r@.wf(),
    {
        SimpleExecution { plan, stage: SimpleStage::Start, tasks_completed: 0 }
    }

    /// The number of tasks completed so far.
    pub fn tasks_completed(&self) -> (r: u32)
        ensures
            r == self@.tasks_completed,
    {
        self.tasks_completed
    }

    fn after_checks_exec(&self, i: usize, j: usize, failed: Vec<Ensure>) -> (r: (SimpleStage, Vec<PartialLogStream>, SimpleNext))
        requires
            i < self@.plan.blueprint.len(),
            j <= self@.plan.blueprint[i as int].checks.len(),
        ensures
            (r.0@, view_streams(r.1@), r.2@) == simple_after_checks(self@.plan, i as nat, j as nat, view_ensures(failed@)),
    {
        let task = &self.plan.blueprint()[i];
        let checks = task.checks();
        let mut sinks: Vec<PartialLogStream> = Vec::new();
        if j < checks.len() {
            let e = &checks[j];
            sinks.push(log_line(concat("ensuring ", ensure_debug(e).as_str())));
            let next = SimpleNext::Check(check_command(e));
            assert(view_streams(sinks@) =~= seq![one_line(ensuring_line(e@))]);
            (SimpleStage::Checking { task: i, check: j, failed }, sinks, next)
        } else if failed.len() > 0 {
            sinks.push(log_line(concat("ensures failed: ", ensures_debug(&failed).as_str())));
            sinks.push(PartialLogStream::End);
            assert(view_streams(sinks@) =~= seq![
                one_line(ensures_failed_line(view_ensures(failed@))),
                PartialLogStreamView::End,
            ]);
            let name = clone_string(task.name());
            (SimpleStage::Done, sinks, SimpleNext::Finish(Err(SimpleError::EnsuresFailed { task: name, failed })))
        } else {
            assert(view_streams(sinks@) =~= Seq::<PartialLogStreamView>::empty());
            (SimpleStage::Running { task: i }, sinks, SimpleNext::Run(clone_strings(task.command())))
        }
    }

    fn begin_task_exec(&self, i: usize, tasks_completed: u32) -> (r: (SimpleStage, Vec<String>, Vec<PartialLogStream>, SimpleNext))
        requires
            i <= self@.plan.blueprint.len(),
        ensures
            (r.0@, view_strings(r.1@), view_streams(r.2@), r.3@) == simple_begin_task(self@.plan, i as nat, tasks_completed as nat),
    {
        let blueprint = self.plan.blueprint();
        let mut prints: Vec<String> = Vec::new();
        if i < blueprint.len() && blueprint[i].is_raw_command() {
            prints.push(concat("** Executing task: ", blueprint[i].name().as_str()));
            assert(view_strings(prints@) =~= seq![simple_task_line(self@.plan.blueprint[i as int].name)]);
            let sinks: Vec<PartialLogStream> = Vec::new();
            assert(view_streams(sinks@) =~= Seq::<PartialLogStreamView>::empty());
            (SimpleStage::Running { task: i }, prints, sinks, SimpleNext::Run(clone_strings(blueprint[i].command())))
        } else if i < blueprint.len() {
            let none: Vec<Ensure> = Vec::new();
            assert(view_ensures(none@) =~= Seq::<EnsureView>::empty());
            let (stage, sinks, next) = self.after_checks_exec(i, 0, none);
            prints.push(concat("** Executing task: ", blueprint[i].name().as_str()));
            assert(view_strings(prints@) =~= seq![simple_task_line(self@.plan.blueprint[i as int].name)]);
            (stage, prints, sinks, next)
        } else {
            let mut line = concat("* finished applying plan: ", self.plan.name().as_str());
            line.append(" (");
            line.append(decimal(tasks_completed as u64).as_str());
            line.append("/");
            line.append(decimal(blueprint.len() as u64).as_str());
            line.append(")");
            prints.push(line);
            let mut sinks: Vec<PartialLogStream> = Vec::new();
            sinks.push(PartialLogStream::End);
            assert(view_strings(prints@) =~= seq![simple_finish_line(self@.plan, tasks_completed as nat)]);
            assert(view_streams(sinks@) =~= seq![PartialLogStreamView::End]);
            (SimpleStage::Done, prints, sinks, SimpleNext::Finish(Ok(())))
        }
    }

    /// Starts the execution: print the plan's name and number of steps, then
    /// begin the first task.
    pub fn start(&mut self) -> (r: SimpleStep)
        requires
            old(self)@.wf(),
            old(self)@.stage is Start,
        ensures
            (final(self)@, r@) == old(self)@.started(),
            final(self)@.wf(),
    {
        let mut prints: Vec<String> = Vec::new();
        prints.push(concat("* applying plan: ", self.plan.name().as_str()));
        let n = decimal(self.plan.blueprint().len() as u64);
        prints.push(concat("* steps: ", n.as_str()));
        let ghost head = view_strings(prints@);
        assert(head =~= simple_header(self@.plan));
        let (stage, more, sinks, next) = self.begin_task_exec(0, 0);
        let ghost added = view_strings(more@);
        let mut more = more;
        prints.append(&mut more);
        assert(view_strings(prints@) =~= head + added);
        self.stage = stage;
        SimpleStep { prints, sinks, next }
    }

    /// Takes the step that follows the event the caller reports.
    pub fn step(&mut self, ev: SimpleEvent) -> (r: SimpleStep)
        requires
            old(self)@.wf(),
            old(self)@.accepts(ev),
        ensures
            (final(self)@, r@) == old(self)@.after(ev),
            final(self)@.wf(),
    {
        let mut stage = SimpleStage::Done;
        std::mem::swap(&mut stage, &mut self.stage);
        match stage {
            SimpleStage::Checking { task, check, failed } => {
                let code = match ev {
                    SimpleEvent::Exited(c) => c,
                    _ => 0,
                };
                let checks = self.plan.blueprint()[task].checks();
                let n_checks = checks.len();
                assert(check < view_ensures(checks@).len());
                assert(check < n_checks);
                let e = &checks[check];
                let mut failed = failed;
                if !check_passes(e, code) {
                    let ghost before = view_ensures(failed@);
                    failed.push(e.clone());
                    assert(view_ensures(failed@) =~= before.push(e@));
                }
                let (stage, sinks, next) = self.after_checks_exec(task, check + 1, failed);
                self.stage = stage;
                let prints: Vec<String> = Vec::new();
                assert(view_strings(prints@) =~= Seq::<Seq<char>>::empty());
                SimpleStep { prints, sinks, next }
            },
            SimpleStage::Running { task } => {
                let tc = self.tasks_completed + 1;
                let (stage, prints, rest, next) = self.begin_task_exec(task + 1, tc);
                let mut sinks: Vec<PartialLogStream> = Vec::new();
                sinks.push(log_line(String::new()));
                let ghost rest_view = view_streams(rest@);
                let mut rest = rest;
                sinks.append(&mut rest);
                assert(view_streams(sinks@) =~= seq![one_line(seq![])] + rest_view);
                self.stage = stage;
                self.tasks_completed = tc;
                SimpleStep { prints, sinks, next }
            },
            _ => {
                assert(false);
                SimpleStep { prints: Vec::new(), sinks: Vec::new(), next: SimpleNext::Finish(Ok(())) }
            },
        }
    }
}

/// The program and the arguments of a command: its first word and the
/// others, or `None` for a command with no words.
pub open spec fn program_and_args_of(words: Seq<Seq<char>>) -> Option<(Seq<char>, Seq<Seq<char>>)> {
    if words.len() > 0 {
        Some((words[0], words.subrange(1, words.len() as int)))
    } else {
        None
    }
}

/// Parts a command into its program and arguments.
pub fn program_and_args(words: &Vec<String>) -> (r: Option<(String, Vec<String>)>)
    ensures
        match r {
            Some((prog, args)) => program_and_args_of(view_strings(words@)) == Some((prog@, view_strings(args@))),
            None => program_and_args_of(view_strings(words@)) is None,
        },
{
    if words.len() == 0 {
        return None;
    }
    let program = clone_string(&words[0]);
    let mut args: Vec<String> = Vec::new();
    let mut i: usize = 1;
    while i < words.len()
        invariant
            1 <= i <= words@.len(),
            args@.len() == i - 1,
            forall|k: int| 0 <= k < i - 1 ==> args@[k]@ == words@[k + 1]@,
        decreases words.len() - i,
    {
        args.push(clone_string(&words[i]));
        i = i + 1;
    }
    assert(view_strings(args@) =~= view_strings(words@).subrange(1, words@.len() as int));
    Some((program, args))
}

/// Every step of a local execution keeps it consistent. The execution is
/// over exactly when the step finishes it; it finishes successfully only with
/// every task of the plan completed; the step that finishes closes the log
/// stream, with the end marker last and once, and no other step sinks it; a
/// command that runs is the command of the task the execution is at, reached
/// only once its checks are done; and a task counts as completed only after
/// its command ran, one at a time.
pub proof fn lemma_simple_step(s: SimpleExecutionView, ev: SimpleEvent)
    requires
        s.wf(),
        s.accepts(ev),
    ensures
        s.after(ev).0.wf(),
        s.after(ev).0.plan == s.plan,
        s.after(ev).0.stage is Done <==> s.after(ev).1.next is Finish,
        s.after(ev).1.next == SimpleNextView::Finish(Ok(())) ==> s.after(ev).0.tasks_completed
            == s.plan.blueprint.len(),
        s.after(ev).1.next is Finish ==> closes_stream(s.after(ev).1.sinks),
        !(s.after(ev).1.next is Finish) ==> keeps_stream_open(s.after(ev).1.sinks),
        s.after(ev).1.next matches SimpleNextView::Run(c) ==> (s.after(ev).0.stage matches SimpleStageView::Running { task }
            && c == s.plan.blueprint[task as int].command),
        s.after(ev).1.next is Check ==> (s.after(ev).0.stage matches SimpleStageView::Checking { task, .. }
            && !is_raw_command(s.plan.blueprint[task as int])),
        s.after(ev).0.tasks_completed == s.tasks_completed || (s.after(ev).0.tasks_completed
            == s.tasks_completed + 1 && s.stage is Running),
{
    let p = s.plan;
    match s.stage {
        SimpleStageView::Checking { task, check, failed } => {
            let e = p.blueprint[task as int].checks[check as int];
            let code = match ev {
                SimpleEvent::Exited(c) => c,
                _ => 0,
            };
            let f = if check_passes_of(e, code) { failed } else { failed.push(e) };
            lemma_simple_after_checks(p, task, check + 1, f);
        },
        SimpleStageView::Running { task } => {
            lemma_simple_begin_task(p, task + 1, s.tasks_completed + 1);
            let head = seq![one_line(seq![])];
            assert(head[0] != PartialLogStreamView::End);
            lemma_stream_concat(head, simple_begin_task(p, task + 1, s.tasks_completed + 1).2);
        },
        _ => {},
    }
}

/// Starting a local execution keeps it consistent, with the same guarantees
/// as every later step.
pub proof fn lemma_simple_start(s: SimpleExecutionView)
    requires
        s.wf(),
        s.stage is Start,
    ensures
        s.started().0.wf(),
        s.started().0.plan == s.plan,
        s.started().0.tasks_completed == 0,
        s.started().0.stage is Done <==> s.started().1.next is Finish,
        s.started().1.next == SimpleNextView::Finish(Ok(())) ==> s.plan.blueprint.len() == 0,
        s.started().1.next is Finish ==> closes_stream(s.started().1.sinks),
        !(s.started().1.next is Finish) ==> keeps_stream_open(s.started().1.sinks),
        s.started().1.next matches SimpleNextView::Run(c) ==> (s.started().0.stage matches SimpleStageView::Running { task }
            && c == s.plan.blueprint[task as int].command),
        s.started().1.next is Check ==> (s.started().0.stage matches SimpleStageView::Checking { task, .. }
            && !is_raw_command(s.plan.blueprint[task as int])),
{
    lemma_simple_begin_task(s.plan, 0, 0);
}

/// A raw command task starts with its command: none of its ensures is
/// checked, and nothing is sunk before its output.
pub proof fn lemma_raw_command_runs_at_once(p: PlanView, i: nat, tasks_completed: nat)
    requires
        i < p.blueprint.len(),
        is_raw_command(p.blueprint[i as int]),
    ensures
        simple_begin_task(p, i, tasks_completed).0 == (SimpleStageView::Running { task: i }),
        simple_begin_task(p, i, tasks_completed).2.len() == 0,
        simple_begin_task(p, i, tasks_completed).3 == SimpleNextView::Run(p.blueprint[i as int].command),
{
}

/// A local execution runs a task's command only once every check of the
/// task has run and none of its ensures failed (or, for a raw command, at
/// once). Once every check has run and some failed, the execution stops with
/// exactly those failures and closes the log stream.
pub proof fn lemma_simple_command_needs_every_ensure(p: PlanView, i: nat, j: nat, failed: Seq<EnsureView>)
    requires
        i < p.blueprint.len(),
        j <= p.blueprint[i as int].checks.len(),
    ensures
        simple_after_checks(p, i, j, failed).0 is Running ==> j == p.blueprint[i as int].checks.len() && failed.len()
            == 0,
        simple_after_checks(p, i, j, failed).0 is Running ==> simple_after_checks(p, i, j, failed).2
            == SimpleNextView::Run(p.blueprint[i as int].command),
        j == p.blueprint[i as int].checks.len() && failed.len() > 0 ==> simple_after_checks(p, i, j, failed).0 is Done
            && simple_after_checks(p, i, j, failed).2 == SimpleNextView::Finish(
            Err(SimpleErrorView::EnsuresFailed { task: p.blueprint[i as int].name, failed: failed }),
        ) && simple_after_checks(p, i, j, failed).1.last() == PartialLogStreamView::End,
{
}

proof fn lemma_simple_after_checks(p: PlanView, i: nat, j: nat, failed: Seq<EnsureView>)
    requires
        i < p.blueprint.len(),
        j <= p.blueprint[i as int].checks.len(),
    ensures
        simple_after_checks(p, i, j, failed).0 is Done <==> simple_after_checks(p, i, j, failed).2 is Finish,
        simple_after_checks(p, i, j, failed).2 is Finish ==> simple_after_checks(p, i, j, failed).2 != SimpleNextView::Finish(Ok(())),
        simple_after_checks(p, i, j, failed).2 is Finish ==> closes_stream(simple_after_checks(p, i, j, failed).1),
        !(simple_after_checks(p, i, j, failed).2 is Finish) ==> keeps_stream_open(simple_after_checks(p, i, j, failed).1),
        simple_after_checks(p, i, j, failed).2 is Run ==> failed.len() == 0,
        match simple_after_checks(p, i, j, failed).0 {
            SimpleStageView::Checking { task, check, .. } => task == i && check < p.blueprint[i as int].checks.len(),
            SimpleStageView::Running { task } => task == i,
            SimpleStageView::Done => true,
            _ => false,
        },
{
    let a = simple_after_checks(p, i, j, failed);
    if a.1.len() > 0 {
        assert(a.1[0] != PartialLogStreamView::End);
    }
}

proof fn lemma_simple_begin_task(p: PlanView, i: nat, tc: nat)
    requires
        i <= p.blueprint.len(),
    ensures
        simple_begin_task(p, i, tc).0 is Done <==> simple_begin_task(p, i, tc).3 is Finish,
        simple_begin_task(p, i, tc).3 == SimpleNextView::Finish(Ok(())) ==> i == p.blueprint.len(),
        simple_begin_task(p, i, tc).3 is Finish ==> closes_stream(simple_begin_task(p, i, tc).2),
        !(simple_begin_task(p, i, tc).3 is Finish) ==> keeps_stream_open(simple_begin_task(p, i, tc).2),
        match simple_begin_task(p, i, tc).0 {
            SimpleStageView::Checking { task, check, .. } => task == i && check < p.blueprint[i as int].checks.len(),
            SimpleStageView::Running { task } => task == i,
            SimpleStageView::Done => true,
            _ => false,
        },
{
    if i < p.blueprint.len() {
        lemma_simple_after_checks(p, i, 0, seq![]);
    }
}

} // verus!
