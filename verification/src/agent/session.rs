//! A session with the server.
use vstd::prelude::*;
use vstd::string::*;

use crate::jobs::JobExecutionResult;
use crate::text::{
    append_decimal, decimal, ellipsize, ellipsized, same, text_of, texts,
};

use super::cli::{format_error_chain, without_repeats};
use super::job::AgentJob;

verus! {

/// What the server says.
#[derive(Debug)]
pub enum ServerMessage {
    Ready { node_id: String },
    Error { error: String },
    Job { job: AgentJob },
}

/// What comes in from the server.
#[derive(Debug)]
pub enum Incoming {
    Message(ServerMessage),
    /// A text that is no message.
    Unreadable(String),
    /// The server ended the session, maybe for a reason.
    Closed(Option<String>),
    /// Something that is no text.
    Other,
    /// The connection failed.
    Broken,
    /// The connection is gone.
    Gone,
}

// ---------------------------------------------------------------------------
// Getting ready
// ---------------------------------------------------------------------------

/// What the agent makes of what comes in before the server is ready.
#[derive(Debug)]
pub enum ReadyVerdict {
    Ready,
    Wait,
    Refused(String),
    Broken,
}

pub enum ReadyModel {
    Ready,
    Wait,
    Refused(Seq<char>),
    Broken,
}

impl View for ReadyVerdict {
    type V = ReadyModel;

    open spec fn view(&self) -> ReadyModel {
        match self {
            ReadyVerdict::Ready => ReadyModel::Ready,
            ReadyVerdict::Wait => ReadyModel::Wait,
            ReadyVerdict::Refused(e) => ReadyModel::Refused(e@),
            ReadyVerdict::Broken => ReadyModel::Broken,
        }
    }
}

/// What the agent makes of what comes in before the server is ready: it is ready
/// only for the node that the agent is.
pub open spec fn ready_verdict(incoming: Incoming, node_id: Seq<char>) -> ReadyModel {
    match incoming {
        Incoming::Message(ServerMessage::Ready { node_id: ready }) => if ready@ == node_id {
            ReadyModel::Ready
        } else {
            ReadyModel::Refused("websocket authenticated for unexpected node: "@ + ready@)
        },
        Incoming::Message(ServerMessage::Error { error }) => ReadyModel::Refused(
            "server error: "@ + error@,
        ),
        Incoming::Closed(reason) => ReadyModel::Refused(
            match reason {
                Some(r) => r@,
                None => "websocket closed during auth"@,
            },
        ),
        Incoming::Gone => ReadyModel::Refused("websocket closed before ready"@),
        Incoming::Broken => ReadyModel::Broken,
        _ => ReadyModel::Wait,
    }
}

/// What the agent makes of what comes in before the server is ready.
pub fn judge_ready(incoming: &Incoming, node_id: &str) -> (r: ReadyVerdict)
    ensures
        r@ == ready_verdict(*incoming, node_id@),
{
    match incoming {
        Incoming::Message(ServerMessage::Ready { node_id: ready }) => {
            if same(ready.as_str(), node_id) {
                ReadyVerdict::Ready
            } else {
                let mut e = "websocket authenticated for unexpected node: ".to_string();
                e.append(ready.as_str());
                ReadyVerdict::Refused(e)
            }
        },
        Incoming::Message(ServerMessage::Error { error }) => {
            let mut e = "server error: ".to_string();
            e.append(error.as_str());
            ReadyVerdict::Refused(e)
        },
        Incoming::Closed(reason) => match reason {
            Some(r) => ReadyVerdict::Refused(r.clone()),
            None => ReadyVerdict::Refused("websocket closed during auth".to_string()),
        },
        Incoming::Gone => ReadyVerdict::Refused("websocket closed before ready".to_string()),
        Incoming::Broken => ReadyVerdict::Broken,
        _ => ReadyVerdict::Wait,
    }
}

/// What is said where connecting took too long.
pub fn connect_timeout_message(timeout_ms: u64) -> (r: String)
    ensures
        r@ == "ws connect timed out after "@ + decimal(timeout_ms as nat) + " ms"@,
{
    let mut r = "ws connect timed out after ".to_string();
    append_decimal(&mut r, timeout_ms);
    r.append(" ms");
    r
}

/// What is said where the server took too long to be ready.
pub fn ready_timeout_message(timeout_ms: u64) -> (r: String)
    ensures
        r@ == "websocket auth timed out after "@ + decimal(timeout_ms as nat) + " ms"@,
{
    let mut r = "websocket auth timed out after ".to_string();
    append_decimal(&mut r, timeout_ms);
    r.append(" ms");
    r
}

// ---------------------------------------------------------------------------
// Serving
// ---------------------------------------------------------------------------

/// What the agent does with what comes in.
#[derive(Debug)]
pub enum SessionStep {
    /// The session goes on, with a line for the debug log.
    Continue(Option<String>),
    /// The job is run.
    Run(AgentJob),
    /// The session is over, for this reason.
    Fail(String),
    /// The session is over, for the reason that the connection failed.
    FailBroken,
    /// The session is over because the agent stops.
    Stop,
}

/// Whether the step is what the agent does with what comes in. Where the agent is
/// stopping, a connection that goes away is no failure.
pub open spec fn is_session_step(step: SessionStep, incoming: Incoming, stopping: bool) -> bool {
    match incoming {
        Incoming::Message(ServerMessage::Ready { node_id }) => step matches SessionStep::Continue(
            line,
        ) && text_of(line) == Some("server ready for nodeId="@ + node_id@),
        Incoming::Message(ServerMessage::Error { error }) => step matches SessionStep::Fail(e)
            && e@ == "server error: "@ + error@,
        Incoming::Message(ServerMessage::Job { job }) => step == SessionStep::Run(job),
        Incoming::Unreadable(text) => step matches SessionStep::Continue(line) && text_of(line)
            == Some(
            "ignored non-server-message websocket payload: "@ + ellipsized(text@, 200),
        ),
        Incoming::Closed(reason) => step matches SessionStep::Fail(e) && e@ == match reason {
            Some(r) => r@,
            None => "websocket closed"@,
        },
        Incoming::Other => step == SessionStep::Continue(None),
        Incoming::Broken => if stopping {
            step == SessionStep::Stop
        } else {
            step == SessionStep::FailBroken
        },
        Incoming::Gone => if stopping {
            step == SessionStep::Stop
        } else {
            step matches SessionStep::Fail(e) && e@ == "websocket connection ended"@
        },
    }
}

/// What the agent does with what comes in.
pub fn judge_incoming(incoming: Incoming, stopping: bool) -> (r: SessionStep)
    ensures
        is_session_step(r, incoming, stopping),
{
    match incoming {
        Incoming::Message(ServerMessage::Ready { node_id }) => {
            let mut s = "server ready for nodeId=".to_string();
            s.append(node_id.as_str());
            SessionStep::Continue(Some(s))
        },
        Incoming::Message(ServerMessage::Error { error }) => {
            let mut e = "server error: ".to_string();
            e.append(error.as_str());
            SessionStep::Fail(e)
        },
        Incoming::Message(ServerMessage::Job { job }) => SessionStep::Run(job),
        Incoming::Unreadable(text) => {
            let mut s = "ignored non-server-message websocket payload: ".to_string();
            s.append(ellipsize(text.as_str(), 200).as_str());
            SessionStep::Continue(Some(s))
        },
        Incoming::Closed(reason) => match reason {
            Some(r) => SessionStep::Fail(r),
            None => SessionStep::Fail("websocket closed".to_string()),
        },
        Incoming::Other => SessionStep::Continue(None),
        Incoming::Broken => {
            if stopping {
                SessionStep::Stop
            } else {
                SessionStep::FailBroken
            }
        },
        Incoming::Gone => {
            if stopping {
                SessionStep::Stop
            } else {
                SessionStep::Fail("websocket connection ended".to_string())
            }
        },
    }
}

// ---------------------------------------------------------------------------
// Reporting on a job
// ---------------------------------------------------------------------------

/// A report on a job.
#[derive(Debug)]
pub struct JobStatus {
    pub job_id: String,
    pub status: &'static str,
    pub message: Option<String>,
}

pub struct StatusModel {
    pub job_id: Seq<char>,
    pub status: Seq<char>,
    pub message: Option<Seq<char>>,
}

impl View for JobStatus {
    type V = StatusModel;

    open spec fn view(&self) -> StatusModel {
        StatusModel {
            job_id: self.job_id@,
            status: self.status@,
            message: text_of(self.message),
        }
    }
}

/// What came of running a job: a result, or an error with the texts of its
/// causes.
#[derive(Debug)]
pub enum JobOutcome {
    Result(JobExecutionResult),
    Error(Vec<String>),
}

/// The report on a job that was accepted.
pub fn accepted_status(job_id: &str) -> (r: JobStatus)
    ensures
        r@ == (StatusModel { job_id: job_id@, status: "accepted"@, message: None }),
{
    JobStatus { job_id: job_id.to_owned(), status: "accepted", message: None }
}

/// The report on a job that was started.
pub fn started_status(job_id: &str) -> (r: JobStatus)
    ensures
        r@ == (StatusModel { job_id: job_id@, status: "started"@, message: None }),
{
    JobStatus { job_id: job_id.to_owned(), status: "started", message: None }
}

/// The report on a job that was run: its result, or its error as a failure.
pub open spec fn final_report(job_id: Seq<char>, outcome: JobOutcome) -> StatusModel {
    match outcome {
        JobOutcome::Result(result) => StatusModel {
            job_id,
            status: result@.status,
            message: result@.message,
        },
        JobOutcome::Error(causes) => StatusModel {
            job_id,
            status: "failed"@,
            message: Some(crate::text::joined(without_repeats(texts(causes@)), ": "@)),
        },
    }
}

/// The report on a job that was run.
pub fn final_status(job_id: &str, outcome: JobOutcome) -> (r: JobStatus)
    ensures
        r@ == final_report(job_id@, outcome),
{
    match outcome {
        JobOutcome::Result(result) => JobStatus {
            job_id: job_id.to_owned(),
            status: result.status,
            message: result.message,
        },
        JobOutcome::Error(causes) => JobStatus {
            job_id: job_id.to_owned(),
            status: "failed",
            message: Some(format_error_chain(&causes)),
        },
    }
}

// ---------------------------------------------------------------------------
// What is known of the system
// ---------------------------------------------------------------------------

/// What was last told to the server of the system, and when, in milliseconds.
#[derive(Debug)]
pub struct SystemInfoState {
    pub last_hash: Option<String>,
    pub last_published_ms: Option<u64>,
}

/// The time that has passed since `at`.
pub open spec fn time_since(at: u64, now_ms: u64) -> int {
    if now_ms >= at {
        now_ms - at
    } else {
        0
    }
}

/// Whether the server is to be told of the system: where it is to be told in any
/// case, where something changed, or where it was told too long ago.
pub open spec fn is_due(
    force: bool,
    last_hash: Option<Seq<char>>,
    last_published_ms: Option<u64>,
    hash: Seq<char>,
    now_ms: u64,
    republish_interval_ms: u64,
) -> bool {
    force || last_hash != Some(hash) || (match last_published_ms {
        Some(at) => time_since(at, now_ms) >= republish_interval_ms,
        None => true,
    })
}

impl SystemInfoState {
    /// The server was told nothing yet.
    pub fn new() -> (r: Self)
        ensures
            r.last_hash is None,
            r.last_published_ms is None,
    {
        SystemInfoState { last_hash: None, last_published_ms: None }
    }

    /// Whether the server is to be told of the system as it is now.
    pub fn due(&self, force: bool, hash: &str, now_ms: u64, republish_interval_ms: u64) -> (r: bool)
        ensures
            r == is_due(
                force,
                text_of(self.last_hash),
                self.last_published_ms,
                hash@,
                now_ms,
                republish_interval_ms,
            ),
    {
        let fresh_due = match self.last_published_ms {
            Some(at) => now_ms.saturating_sub(at) >= republish_interval_ms,
            None => true,
        };
        let changed = match &self.last_hash {
            Some(h) => !same(h.as_str(), hash),
            None => true,
        };
        force || changed || fresh_due
    }

    /// The server was told of the system.
    pub fn published(&mut self, hash: &str, now_ms: u64)
        ensures
            text_of(final(self).last_hash) == Some(hash@),
            final(self).last_published_ms == Some(now_ms),
    {
        self.last_hash = Some(hash.to_owned());
        self.last_published_ms = Some(now_ms);
    }
}

/// What was told is not told again until it changes or the interval has passed.
pub proof fn told_once_per_interval(
    hash: Seq<char>,
    other: Seq<char>,
    told_ms: u64,
    now_ms: u64,
    republish_interval_ms: u64,
)
    requires
        told_ms <= now_ms,
    ensures
        is_due(false, Some(hash), Some(told_ms), other, now_ms, republish_interval_ms) <==> (hash
            != other || now_ms - told_ms >= republish_interval_ms),
{
}

// ---------------------------------------------------------------------------
// The course of a session
// ---------------------------------------------------------------------------

/// What is done next in a session.
#[derive(Debug, Clone, Copy, PartialEq, Eq, Structural)]
pub enum SessionPhase {
    Connect,
    SendAuth,
    AwaitReady,
    FirstMetrics,
    FirstSystemInfo,
    /// Wait for what comes in, for the time to publish, or for a wish to stop.
    Serve,
    PublishMetrics,
    PublishSystemInfo,
    SendAccepted,
    SendStarted,
    ExecuteJob,
    SendResult,
    Close,
    Stopped,
    Failed,
}

/// What happened.
#[derive(Debug, Clone, Copy, PartialEq, Eq, Structural)]
pub enum SessionEvent {
    /// What was to be done was done.
    Done,
    /// It could not be done.
    NotDone,
    /// The server is ready.
    Ready,
    /// The server is not ready yet, or what came in asks for nothing.
    Nothing,
    /// A job came in.
    Job,
    /// It is time to publish metrics.
    MetricsTick,
    /// It is time to look at the system.
    SystemTick,
    /// The agent is to stop.
    StopRequested,
    /// The connection went away while the agent is stopping.
    GoneWhileStopping,
    /// The session cannot go on.
    Fatal,
}

/// What is done after something happened. A session serves only once the server
/// is ready. Publishing may fail without harm. A job whose acceptance cannot be
/// reported is not run; later reports on it are sent as well as they can be.
pub open spec fn phase_after(phase: SessionPhase, event: SessionEvent) -> SessionPhase {
    match phase {
        SessionPhase::Connect => if event == SessionEvent::Done {
            SessionPhase::SendAuth
        } else {
            SessionPhase::Failed
        },
        SessionPhase::SendAuth => if event == SessionEvent::Done {
            SessionPhase::AwaitReady
        } else {
            SessionPhase::Failed
        },
        SessionPhase::AwaitReady => if event == SessionEvent::Ready {
            SessionPhase::FirstMetrics
        } else if event == SessionEvent::Nothing {
            SessionPhase::AwaitReady
        } else {
            SessionPhase::Failed
        },
        SessionPhase::FirstMetrics => SessionPhase::FirstSystemInfo,
        SessionPhase::FirstSystemInfo => SessionPhase::Serve,
        SessionPhase::Serve => match event {
            SessionEvent::Job => SessionPhase::SendAccepted,
            SessionEvent::MetricsTick => SessionPhase::PublishMetrics,
            SessionEvent::SystemTick => SessionPhase::PublishSystemInfo,
            SessionEvent::StopRequested => SessionPhase::Close,
            SessionEvent::GoneWhileStopping => SessionPhase::Stopped,
            SessionEvent::Fatal => SessionPhase::Failed,
            _ => SessionPhase::Serve,
        },
        SessionPhase::PublishMetrics => SessionPhase::Serve,
        SessionPhase::PublishSystemInfo => SessionPhase::Serve,
        SessionPhase::SendAccepted => if event == SessionEvent::Done {
            SessionPhase::SendStarted
        } else {
            SessionPhase::Serve
        },
        SessionPhase::SendStarted => SessionPhase::ExecuteJob,
        SessionPhase::ExecuteJob => SessionPhase::SendResult,
        SessionPhase::SendResult => SessionPhase::Serve,
        SessionPhase::Close => SessionPhase::Stopped,
        SessionPhase::Stopped => SessionPhase::Stopped,
        SessionPhase::Failed => SessionPhase::Failed,
    }
}

/// What is done after something happened.
pub fn next_phase(phase: SessionPhase, event: SessionEvent) -> (r: SessionPhase)
    ensures
        r == phase_after(phase, event),
{
    match phase {
        SessionPhase::Connect => {
            if event == SessionEvent::Done {
                SessionPhase::SendAuth
            } else {
                SessionPhase::Failed
            }
        },
        SessionPhase::SendAuth => {
            if event == SessionEvent::Done {
                SessionPhase::AwaitReady
            } else {
                SessionPhase::Failed
            }
        },
        SessionPhase::AwaitReady => {
            if event == SessionEvent::Ready {
                SessionPhase::FirstMetrics
            } else if event == SessionEvent::Nothing {
                SessionPhase::AwaitReady
            } else {
                SessionPhase::Failed
            }
        },
        SessionPhase::FirstMetrics => SessionPhase::FirstSystemInfo,
        SessionPhase::FirstSystemInfo => SessionPhase::Serve,
        SessionPhase::Serve => match event {
            SessionEvent::Job => SessionPhase::SendAccepted,
            SessionEvent::MetricsTick => SessionPhase::PublishMetrics,
            SessionEvent::SystemTick => SessionPhase::PublishSystemInfo,
            SessionEvent::StopRequested => SessionPhase::Close,
            SessionEvent::GoneWhileStopping => SessionPhase::Stopped,
            SessionEvent::Fatal => SessionPhase::Failed,
            _ => SessionPhase::Serve,
        },
        SessionPhase::PublishMetrics => SessionPhase::Serve,
        SessionPhase::PublishSystemInfo => SessionPhase::Serve,
        SessionPhase::SendAccepted => {
            if event == SessionEvent::Done {
                SessionPhase::SendStarted
            } else {
                SessionPhase::Serve
            }
        },
        SessionPhase::SendStarted => SessionPhase::ExecuteJob,
        SessionPhase::ExecuteJob => SessionPhase::SendResult,
        SessionPhase::SendResult => SessionPhase::Serve,
        SessionPhase::Close => SessionPhase::Stopped,
        SessionPhase::Stopped => SessionPhase::Stopped,
        SessionPhase::Failed => SessionPhase::Failed,
    }
}

/// What happened, where the agent waits for the server to be ready.
pub fn ready_event(verdict: &ReadyVerdict) -> (r: SessionEvent)
    ensures
        r == match *verdict {
            ReadyVerdict::Ready => SessionEvent::Ready,
            ReadyVerdict::Wait => SessionEvent::Nothing,
            _ => SessionEvent::Fatal,
        },
{
    match verdict {
        ReadyVerdict::Ready => SessionEvent::Ready,
        ReadyVerdict::Wait => SessionEvent::Nothing,
        ReadyVerdict::Refused(_) => SessionEvent::Fatal,
        ReadyVerdict::Broken => SessionEvent::Fatal,
    }
}

/// What happened, where something came in while the session serves.
pub fn step_event(step: &SessionStep) -> (r: SessionEvent)
    ensures
        r == match *step {
            SessionStep::Continue(_) => SessionEvent::Nothing,
            SessionStep::Run(_) => SessionEvent::Job,
            SessionStep::Stop => SessionEvent::GoneWhileStopping,
            _ => SessionEvent::Fatal,
        },
{
    match step {
        SessionStep::Continue(_) => SessionEvent::Nothing,
        SessionStep::Run(_) => SessionEvent::Job,
        SessionStep::Fail(_) => SessionEvent::Fatal,
        SessionStep::FailBroken => SessionEvent::Fatal,
        SessionStep::Stop => SessionEvent::GoneWhileStopping,
    }
}

/// What happened, where the agent heard of a wish to stop, or that there can be
/// none.
pub fn stop_event(heard: bool, stop_requested: bool) -> (r: SessionEvent)
    ensures
        r == if heard && stop_requested {
            SessionEvent::StopRequested
        } else {
            SessionEvent::Nothing
        },
{
    if heard && stop_requested {
        SessionEvent::StopRequested
    } else {
        SessionEvent::Nothing
    }
}

/// Where a session is after these events.
pub open spec fn phase_at(events: Seq<SessionEvent>) -> SessionPhase
    decreases events.len(),
{
    if events.len() == 0 {
        SessionPhase::Connect
    } else {
        phase_after(phase_at(events.drop_last()), events.last())
    }
}

/// Whether something happened in a session while it was in a phase.
pub open spec fn has_happened(
    events: Seq<SessionEvent>,
    phase: SessionPhase,
    event: SessionEvent,
) -> bool {
    exists|i: int|
        0 <= i < events.len() && events[i] == event && #[trigger] phase_at(events.take(i)) == phase
}

proof fn lemma_happened(events: Seq<SessionEvent>, phase: SessionPhase, event: SessionEvent)
    requires
        events.len() > 0,
        has_happened(events.drop_last(), phase, event) || (phase_at(events.drop_last()) == phase
            && events.last() == event),
    ensures
        has_happened(events, phase, event),
{
    let init = events.drop_last();
    if has_happened(init, phase, event) {
        let i = choose|i: int|
            0 <= i < init.len() && init[i] == event && #[trigger] phase_at(init.take(i)) == phase;
        assert(events.take(i) =~= init.take(i));
        assert(events[i] == init[i]);
    } else {
        let n = init.len() as int;
        assert(events.take(n) =~= init);
        assert(events[n] == event);
    }
}

/// Whether a session is past the point where the server has to be ready.
pub open spec fn is_serving(phase: SessionPhase) -> bool {
    phase != SessionPhase::Connect && phase != SessionPhase::SendAuth && phase
        != SessionPhase::AwaitReady && phase != SessionPhase::Failed
}

/// Nothing is published and no job is run before the server said that it is ready
/// for this node.
pub proof fn nothing_before_ready(events: Seq<SessionEvent>)
    ensures
        is_serving(phase_at(events)) ==> has_happened(
            events,
            SessionPhase::AwaitReady,
            SessionEvent::Ready,
        ),
    decreases events.len(),
{
    if events.len() > 0 {
        let init = events.drop_last();
        nothing_before_ready(init);
        if is_serving(phase_at(events)) {
            lemma_happened(events, SessionPhase::AwaitReady, SessionEvent::Ready);
        }
    }
}

/// A job is run only right after its acceptance was reported and its start was
/// tried to be; and what came of it is reported next.
pub proof fn job_is_reported_in_order(phase: SessionPhase, event: SessionEvent)
    ensures
        phase_after(phase, event) == SessionPhase::SendStarted ==> phase
            == SessionPhase::SendAccepted && event == SessionEvent::Done,
        phase_after(phase, event) == SessionPhase::ExecuteJob ==> phase
            == SessionPhase::SendStarted,
        phase == SessionPhase::ExecuteJob ==> phase_after(phase, event)
            == SessionPhase::SendResult,
        phase_after(phase, event) == SessionPhase::SendResult ==> phase
            == SessionPhase::ExecuteJob,
        phase == SessionPhase::SendResult ==> phase_after(phase, event) == SessionPhase::Serve,
{
}

/// A session ends as stopped only where the agent was to stop.
pub proof fn stopped_only_when_asked(events: Seq<SessionEvent>)
    ensures
        phase_at(events) == SessionPhase::Stopped || phase_at(events) == SessionPhase::Close
            ==> has_happened(events, SessionPhase::Serve, SessionEvent::StopRequested)
            || has_happened(events, SessionPhase::Serve, SessionEvent::GoneWhileStopping),
    decreases events.len(),
{
    if events.len() > 0 {
        let init = events.drop_last();
        stopped_only_when_asked(init);
        if phase_at(events) == SessionPhase::Stopped || phase_at(events) == SessionPhase::Close {
            if has_happened(init, SessionPhase::Serve, SessionEvent::StopRequested) || (phase_at(
                init,
            ) == SessionPhase::Serve && events.last() == SessionEvent::StopRequested) {
                lemma_happened(events, SessionPhase::Serve, SessionEvent::StopRequested);
            } else {
                lemma_happened(events, SessionPhase::Serve, SessionEvent::GoneWhileStopping);
            }
        }
    }
}

/// A failure to publish, or to report on a job, does not end a session.
pub proof fn lost_reports_do_not_end_a_session(phase: SessionPhase)
    requires
        phase == SessionPhase::FirstMetrics || phase == SessionPhase::FirstSystemInfo || phase
            == SessionPhase::PublishMetrics || phase == SessionPhase::PublishSystemInfo || phase
            == SessionPhase::SendAccepted || phase == SessionPhase::SendStarted || phase
            == SessionPhase::SendResult,
    ensures
        phase_after(phase, SessionEvent::NotDone) != SessionPhase::Failed,
        phase_after(phase, SessionEvent::NotDone) != SessionPhase::Stopped,
{
}

// ---------------------------------------------------------------------------
// One session after the other
// ---------------------------------------------------------------------------

/// What the agent does next.
#[derive(Debug, Clone, Copy, PartialEq, Eq, Structural)]
pub enum AgentStep {
    RunSession,
    Pause,
    Stopped,
}

/// What the agent does at the beginning of a round: when it starts, and after each
/// pause.
pub fn begin_round(stop_requested: bool) -> (r: AgentStep)
    ensures
        r == if stop_requested {
            AgentStep::Stopped
        } else {
            AgentStep::RunSession
        },
{
    if stop_requested {
        AgentStep::Stopped
    } else {
        AgentStep::RunSession
    }
}

/// What the agent does after a session: it pauses before the next one, unless it
/// is to stop.
pub fn after_session(session_stopped: bool, stop_requested: bool) -> (r: AgentStep)
    ensures
        r == if session_stopped || stop_requested {
            AgentStep::Stopped
        } else {
            AgentStep::Pause
        },
{
    if session_stopped || stop_requested {
        AgentStep::Stopped
    } else {
        AgentStep::Pause
    }
}

/// What the agent says of itself when it starts.
pub fn runtime_config_line(
    ws_url: &str,
    api_base_url: &str,
    publish_interval_ms: u64,
    system_info_check_interval_ms: u64,
) -> (r: String)
    ensures
        r@ == "runtime config: ws="@ + ws_url@ + ", api="@ + api_base_url@ + ", publish="@
            + decimal(publish_interval_ms as nat) + "ms, system-check="@ + decimal(
            system_info_check_interval_ms as nat,
        ) + "ms"@,
{
    let mut r = "runtime config: ws=".to_string();
    r.append(ws_url);
    r.append(", api=");
    r.append(api_base_url);
    r.append(", publish=");
    append_decimal(&mut r, publish_interval_ms);
    r.append("ms, system-check=");
    append_decimal(&mut r, system_info_check_interval_ms);
    r.append("ms");
    r
}

/// A session is ready exactly when the server is ready for this node; it goes on waiting
/// only for what says nothing of that, and every refusal says why.
pub proof fn ready_is_for_this_node(incoming: Incoming, node_id: Seq<char>)
    ensures
        ({
            let verdict = ready_verdict(incoming, node_id);
            let own = incoming matches Incoming::Message(ServerMessage::Ready { node_id: ready })
                && ready@ == node_id;
            let other = incoming matches Incoming::Message(ServerMessage::Ready { node_id: ready })
                && ready@ != node_id;
            let error = incoming is Message && incoming->Message_0 is Error;
            &&& verdict == ReadyModel::Ready <==> own
            &&& verdict == ReadyModel::Wait <==> incoming is Unreadable || incoming is Other || (
            incoming is Message && incoming->Message_0 is Job)
            &&& verdict == ReadyModel::Broken <==> incoming is Broken
            &&& verdict is Refused <==> other || error || incoming is Closed || incoming is Gone
            &&& error ==> crate::text::occurs(
                verdict->Refused_0,
                incoming->Message_0->Error_error@,
            )
            &&& other ==> crate::text::occurs(
                verdict->Refused_0,
                incoming->Message_0->Ready_node_id@,
            )
            &&& incoming matches Incoming::Closed(Some(reason)) ==> verdict->Refused_0 == reason@
        }),
{
    let none = Seq::<char>::empty();
    if let Incoming::Message(ServerMessage::Ready { node_id: ready }) = incoming {
        let front = "websocket authenticated for unexpected node: "@;
        crate::text::middle_occurs(front, ready@, none);
        assert(front + ready@ + none =~= front + ready@);
    }
    if let Incoming::Message(ServerMessage::Error { error }) = incoming {
        let front = "server error: "@;
        crate::text::middle_occurs(front, error@, none);
        assert(front + error@ + none =~= front + error@);
    }
}

/// A job that comes in is run, and nothing else is; a session ends only because the
/// server or the connection ends it, and by its own wish only while it is stopping.
pub proof fn jobs_are_run_as_they_come(step: SessionStep, incoming: Incoming, stopping: bool)
    requires
        is_session_step(step, incoming, stopping),
    ensures
        incoming matches Incoming::Message(ServerMessage::Job { job }) ==> step
            == SessionStep::Run(job),
        step is Run ==> incoming is Message && incoming->Message_0 is Job,
        step is Stop <==> stopping && (incoming is Broken || incoming is Gone),
        step is FailBroken <==> !stopping && incoming is Broken,
        step is Fail <==> (incoming is Message && incoming->Message_0 is Error) || incoming
            is Closed || (incoming is Gone && !stopping),
        incoming matches Incoming::Closed(Some(reason)) ==> step->Fail_0@ == reason@,
        incoming matches Incoming::Message(ServerMessage::Error { error }) ==> crate::text::occurs(
            step->Fail_0@,
            error@,
        ),
{
    let none = Seq::<char>::empty();
    if let Incoming::Message(ServerMessage::Error { error }) = incoming {
        let front = "server error: "@;
        crate::text::middle_occurs(front, error@, none);
        assert(front + error@ + none =~= front + error@);
    }
}

/// The last word on a job is about that job: its result where it has one, and else that it
/// failed, with what went wrong.
pub proof fn last_word_is_the_outcome(job_id: Seq<char>, outcome: JobOutcome)
    ensures
        final_report(job_id, outcome).job_id == job_id,
        outcome matches JobOutcome::Result(result) ==> final_report(job_id, outcome).status
            == result@.status && final_report(job_id, outcome).message == result@.message,
        outcome matches JobOutcome::Error(causes) ==> final_report(job_id, outcome).status
            == "failed"@ && final_report(job_id, outcome).message is Some,
        outcome matches JobOutcome::Error(causes) ==> (texts(causes@).len() == 1
            ==> final_report(job_id, outcome).message == Some(texts(causes@)[0])),
{
    if let JobOutcome::Error(causes) = outcome {
        let all = texts(causes@);
        if all.len() == 1 {
            super::cli::different_causes_are_all_told(all);
        }
    }
}

/// A new session comes to serve when everything works; a job that it is given is taken,
/// told as started, run and answered, and then it serves again.
pub proof fn good_session_serves_its_jobs(done: SessionEvent)
    requires
        done == SessionEvent::Done,
    ensures
        ({
            let sent = phase_after(SessionPhase::Connect, done);
            let awaits = phase_after(sent, done);
            let metrics = phase_after(awaits, SessionEvent::Ready);
            let system = phase_after(metrics, done);
            &&& sent == SessionPhase::SendAuth
            &&& awaits == SessionPhase::AwaitReady
            &&& phase_after(awaits, SessionEvent::Nothing) == awaits
            &&& metrics == SessionPhase::FirstMetrics
            &&& system == SessionPhase::FirstSystemInfo
            &&& phase_after(system, done) == SessionPhase::Serve
        }),
        ({
            let taken = phase_after(SessionPhase::Serve, SessionEvent::Job);
            let started = phase_after(taken, done);
            let run = phase_after(started, done);
            let told = phase_after(run, done);
            &&& taken == SessionPhase::SendAccepted
            &&& started == SessionPhase::SendStarted
            &&& run == SessionPhase::ExecuteJob
            &&& told == SessionPhase::SendResult
            &&& phase_after(told, done) == SessionPhase::Serve
        }),
        phase_after(phase_after(SessionPhase::Serve, SessionEvent::MetricsTick), done)
            == SessionPhase::Serve,
        phase_after(phase_after(SessionPhase::Serve, SessionEvent::SystemTick), done)
            == SessionPhase::Serve,
        phase_after(SessionPhase::Serve, SessionEvent::MetricsTick)
            == SessionPhase::PublishMetrics,
        phase_after(SessionPhase::Serve, SessionEvent::SystemTick)
            == SessionPhase::PublishSystemInfo,
        phase_after(phase_after(SessionPhase::Serve, SessionEvent::StopRequested), done)
            == SessionPhase::Stopped,
{
}

/// A session fails only where it cannot be set up or cannot go on, and then stays so.
pub proof fn session_fails_for_a_reason(phase: SessionPhase, event: SessionEvent)
    ensures
        phase != SessionPhase::Failed && phase_after(phase, event) == SessionPhase::Failed ==> ((
        phase == SessionPhase::Connect || phase == SessionPhase::SendAuth) && event
            != SessionEvent::Done) || (phase == SessionPhase::AwaitReady && event
            != SessionEvent::Ready && event != SessionEvent::Nothing) || (phase
            == SessionPhase::Serve && event == SessionEvent::Fatal),
        phase == SessionPhase::Connect || phase == SessionPhase::SendAuth || phase
            == SessionPhase::AwaitReady || phase == SessionPhase::Serve ==> phase_after(
            phase,
            SessionEvent::Fatal,
        ) == SessionPhase::Failed,
        phase_after(SessionPhase::Failed, event) == SessionPhase::Failed,
        phase_after(SessionPhase::Stopped, event) == SessionPhase::Stopped,
        phase_after(SessionPhase::Serve, SessionEvent::GoneWhileStopping) == SessionPhase::Stopped,
        phase == SessionPhase::SendAccepted && event != SessionEvent::Done ==> phase_after(
            phase,
            event,
        ) == SessionPhase::Serve,
{
}

/// The description of the system is published at once when that is asked for, when it was
/// never published and when it has changed.
pub proof fn news_are_published_at_once(
    last_hash: Option<Seq<char>>,
    last_published_ms: Option<u64>,
    hash: Seq<char>,
    now_ms: u64,
    republish_interval_ms: u64,
)
    ensures
        is_due(true, last_hash, last_published_ms, hash, now_ms, republish_interval_ms),
        last_hash != Some(hash) || last_published_ms is None ==> is_due(
            false,
            last_hash,
            last_published_ms,
            hash,
            now_ms,
            republish_interval_ms,
        ),
        last_hash == Some(hash) && last_published_ms is Some && now_ms < last_published_ms->0
            && republish_interval_ms > 0 ==> !is_due(
            false,
            last_hash,
            last_published_ms,
            hash,
            now_ms,
            republish_interval_ms,
        ),
{
}

/// What asks for nothing lets the session go on: a greeting and a text that cannot be read
/// are noted, with the node or the beginning of the text, and the rest is passed over.
pub proof fn session_goes_on_past_the_rest(
    step: SessionStep,
    incoming: Incoming,
    stopping: bool,
)
    requires
        is_session_step(step, incoming, stopping),
    ensures
        step is Continue <==> incoming is Other || incoming is Unreadable || (incoming is Message
            && incoming->Message_0 is Ready),
        incoming is Other ==> step == SessionStep::Continue(None),
        incoming matches Incoming::Unreadable(text) ==> (step matches SessionStep::Continue(line)
            && line is Some && (text@.len() <= 200 ==> crate::text::occurs(line->0@, text@))),
        incoming matches Incoming::Message(ServerMessage::Ready { node_id }) ==> (step matches
            SessionStep::Continue(line) && line is Some && crate::text::occurs(
            line->0@,
            node_id@,
        )),
{
    let none = Seq::<char>::empty();
    if let Incoming::Unreadable(text) = incoming {
        let front = "ignored non-server-message websocket payload: "@;
        let told = ellipsized(text@, 200);
        crate::text::middle_occurs(front, told, none);
        assert(front + told + none =~= front + told);
    }
    if let Incoming::Message(ServerMessage::Ready { node_id }) = incoming {
        let front = "server ready for nodeId="@;
        crate::text::middle_occurs(front, node_id@, none);
        assert(front + node_id@ + none =~= front + node_id@);
    }
}

} // verus!
