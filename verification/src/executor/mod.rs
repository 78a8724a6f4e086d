//! Execution of plans: the log stream between an executor and its reader,
//! the execution context, and the decisions of the local and SSH executors.

pub mod simple;
pub mod ssh;

use vstd::prelude::*;
use crate::text::view_strings;
use crate::text::clone_strings;
use crate::plan::Plan;

verus! {

/// Lines of log output.
pub type Logs = Vec<String>;

/// A part of a log stream, passed from an executor's log sink to the log
/// source on the other end.
#[derive(Debug, PartialEq, Eq)]
pub enum PartialLogStream {
    /// The next logs to emit.
    Next(Logs),
    /// The end of the stream; sink and source close after it.
    End,
}

/// The value of a [`PartialLogStream`].
pub enum PartialLogStreamView {
    Next(Seq<Seq<char>>),
    End,
}

impl View for PartialLogStream {
    type V = PartialLogStreamView;

    open spec fn view(&self) -> PartialLogStreamView {
        match self {
            PartialLogStream::Next(logs) => PartialLogStreamView::Next(view_strings(logs@)),
            PartialLogStream::End => PartialLogStreamView::End,
        }
    }
}

impl Clone for PartialLogStream {
    fn clone(&self) -> (r: Self)
        ensures
            r@ == self@,
    {
        match self {
            PartialLogStream::Next(logs) => PartialLogStream::Next(clone_strings(logs)),
            PartialLogStream::End => PartialLogStream::End,
        }
    }
}

/// The views of a sequence of stream parts.
pub open spec fn view_streams(v: Seq<PartialLogStream>) -> Seq<PartialLogStreamView> {
    v.map_values(|p: PartialLogStream| p@)
}

/// A single log line as a stream part.
pub open spec fn one_line(s: Seq<char>) -> PartialLogStreamView {
    PartialLogStreamView::Next(seq![s])
}

/// Wraps one log line as a stream part.
pub fn log_line(s: String) -> (r: PartialLogStream)
    ensures
        r@ == one_line(s@),
{
    let mut logs: Vec<String> = Vec::new();
    logs.push(s);
    let r = PartialLogStream::Next(logs);
    assert(view_strings(logs@) =~= seq![s@]);
    r
}

/// The stream parts close the stream: the end marker comes last, and
/// nowhere before.
pub open spec fn closes_stream(sinks: Seq<PartialLogStreamView>) -> bool {
    &&& sinks.len() > 0
    &&& sinks.last() == PartialLogStreamView::End
    &&& forall|k: int| 0 <= k < sinks.len() - 1 ==> sinks[k] != PartialLogStreamView::End
}

/// The stream parts leave the stream open: no end marker is among them.
pub open spec fn keeps_stream_open(sinks: Seq<PartialLogStreamView>) -> bool {
    forall|k: int| 0 <= k < sinks.len() ==> sinks[k] != PartialLogStreamView::End
}

/// Parts that keep the stream open, followed by parts that close it, close
/// it; followed by parts that keep it open, keep it open.
pub proof fn lemma_stream_concat(a: Seq<PartialLogStreamView>, b: Seq<PartialLogStreamView>)
    requires
        keeps_stream_open(a),
    ensures
        closes_stream(b) ==> closes_stream(a + b),
        keeps_stream_open(b) ==> keeps_stream_open(a + b),
{
    let c = a + b;
    assert forall|k: int| 0 <= k < c.len() && k < a.len() implies c[k] == a[k] by {}
    assert forall|k: int| a.len() <= k < c.len() implies c[k] == b[k - a.len()] by {}
    if closes_stream(b) {
        assert(c.last() == b.last());
    }
}

/// How many logs a stream part carries when sunk: the lines of `Next`, none
/// for `End`.
pub open spec fn sunk_count_of(p: PartialLogStreamView) -> nat {
    match p {
        PartialLogStreamView::Next(logs) => logs.len(),
        PartialLogStreamView::End => 0,
    }
}

/// The number of logs that sinking the stream part sinks.
pub fn sunk_count(logs: &PartialLogStream) -> (r: usize)
    ensures
        r == sunk_count_of(logs@),
{
    match logs {
        PartialLogStream::Next(l) => l.len(),
        PartialLogStream::End => 0,
    }
}

/// Why the log pipeline failed.
#[derive(Debug, Clone, Copy, PartialEq, Eq, Structural)]
pub enum LogError {
    /// The source was read after the end of the stream.
    AlreadyEnded,
    /// The sink end of the channel is gone.
    SinkLost,
    /// The logs could not be sent to the source end.
    SendFailed,
    /// The sink was given a part after the end of the stream.
    SinkEnded,
}

impl LogError {
    /// The text of the error.
    pub fn message(&self) -> (r: String)
        ensures
            r@ == match self {
                LogError::AlreadyEnded => "Log source already ended"@,
                LogError::SinkLost => "sink lost"@,
                LogError::SendFailed => "Failed sending logs"@,
                LogError::SinkEnded => "Log sink already ended"@,
            },
    {
        match self {
            LogError::AlreadyEnded => String::from_str("Log source already ended"),
            LogError::SinkLost => String::from_str("sink lost"),
            LogError::SendFailed => String::from_str("Failed sending logs"),
            LogError::SinkEnded => String::from_str("Log sink already ended"),
        }
    }
}

/// Whether a log sink sends a stream part, and whether it is closed after:
/// once it has sent the end of the stream it is closed and refuses every
/// part; otherwise it sends the part, and is closed after sending the end.
pub fn sink_admits(ended: bool, part: &PartialLogStream) -> (r: Result<bool, LogError>)
    ensures
        ended ==> r == Err::<bool, LogError>(LogError::SinkEnded),
        !ended ==> r == Ok::<bool, LogError>(part@ is End),
{
    if ended {
        Err(LogError::SinkEnded)
    } else {
        match part {
            PartialLogStream::End => Ok(true),
            PartialLogStream::Next(_) => Ok(false),
        }
    }
}

/// A source of logs from an executor: the end of the pipeline that reads
/// what the executor's sink sent.
pub trait LogSource {
    /// Reads the next part of the log stream.
    fn source(&mut self) -> Result<PartialLogStream, LogError>;
}

/// The context of an execution: its name and the plan being executed.
pub trait ExecutionContext {
    /// The name of the execution.
    fn name(&self) -> &str;

    /// The plan being executed.
    fn plan(&self) -> &Plan;
}

} // verus!

