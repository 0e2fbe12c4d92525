//! How log lines are written.
use vstd::prelude::*;
use vstd::string::*;

verus! {

#[derive(Debug, Clone, Copy, PartialEq, Eq, Structural)]
pub enum LogLevel {
    Info,
    Warn,
    Error,
    Debug,
}

/// What a line of the agent begins with.
pub open spec fn agent_front(level: LogLevel) -> Seq<char> {
    match level {
        LogLevel::Info => "[statix-agent] "@,
        LogLevel::Warn => "[statix-agent][warn] "@,
        LogLevel::Error => "[statix-agent][error] "@,
        LogLevel::Debug => "[statix-agent][debug] "@,
    }
}

/// A line of the agent.
pub fn agent_line(level: LogLevel, message: &str) -> (r: String)
    ensures
        r@ == agent_front(level) + message@,
{
    let mut r = match level {
        LogLevel::Info => "[statix-agent] ".to_string(),
        LogLevel::Warn => "[statix-agent][warn] ".to_string(),
        LogLevel::Error => "[statix-agent][error] ".to_string(),
        LogLevel::Debug => "[statix-agent][debug] ".to_string(),
    };
    r.append(message);
    r
}

/// What stands before the message of a line of a job.
pub open spec fn level_tag(level: LogLevel) -> Seq<char> {
    match level {
        LogLevel::Info => ""@,
        LogLevel::Warn => "[warn] "@,
        LogLevel::Error => "[error] "@,
        LogLevel::Debug => "[debug] "@,
    }
}

/// A line on a phase of a job.
pub open spec fn phase_line(
    job_id: Seq<char>,
    phase: Seq<char>,
    level: LogLevel,
    message: Seq<char>,
) -> Seq<char> {
    "[statix-agent] job "@ + job_id + " ["@ + phase + "] "@ + level_tag(level) + message
}

/// A line on a phase of a job.
pub fn job_phase_line(job_id: &str, phase: &str, level: LogLevel, message: &str) -> (r: String)
    ensures
        r@ == phase_line(job_id@, phase@, level, message@),
{
    let tag = match level {
        LogLevel::Info => "",
        LogLevel::Warn => "[warn] ",
        LogLevel::Error => "[error] ",
        LogLevel::Debug => "[debug] ",
    };
    let mut r = "[statix-agent] job ".to_string();
    r.append(job_id);
    r.append(" [");
    r.append(phase);
    r.append("] ");
    r.append(tag);
    r.append(message);
    r
}

/// A line that a job wrote.
pub open spec fn stream_line(
    job_id: Seq<char>,
    phase: Seq<char>,
    stream: Seq<char>,
    line: Seq<char>,
) -> Seq<char> {
    "[statix-agent] job "@ + job_id + " ["@ + phase + "] "@ + stream + ": "@ + line
}

/// A line that a job wrote.
pub fn job_stream_line(job_id: &str, phase: &str, stream: &str, line: &str) -> (r: String)
    ensures
        r@ == stream_line(job_id@, phase@, stream@, line@),
{
    let mut r = "[statix-agent] job ".to_string();
    r.append(job_id);
    r.append(" [");
    r.append(phase);
    r.append("] ");
    r.append(stream);
    r.append(": ");
    r.append(line);
    r
}

/// A line names the job, the phase and what it says, in this order, and tells how serious
/// it is unless it is not.
pub proof fn lines_tell_what_they_are_about(
    job_id: Seq<char>,
    phase: Seq<char>,
    level: LogLevel,
    stream: Seq<char>,
    message: Seq<char>,
)
    ensures
        ({
            let line = phase_line(job_id, phase, level, message);
            let front = "[statix-agent] job "@ + job_id + " ["@ + phase + "] "@;
            &&& crate::text::begins_with(line, front)
            &&& line.skip(line.len() - message.len()) == message
            &&& level == LogLevel::Info ==> line == front + message
            &&& level == LogLevel::Warn ==> line == front + "[warn] "@ + message
            &&& level == LogLevel::Error ==> line == front + "[error] "@ + message
            &&& level == LogLevel::Debug ==> line == front + "[debug] "@ + message
        }),
        ({
            let line = stream_line(job_id, phase, stream, message);
            let front = "[statix-agent] job "@ + job_id + " ["@ + phase + "] "@;
            &&& crate::text::begins_with(line, front + stream)
            &&& line.skip(line.len() - message.len()) == message
            &&& line.len() == front.len() + stream.len() + 2 + message.len()
        }),
{
    reveal_strlit("");
    reveal_strlit(": ");
    let front = "[statix-agent] job "@ + job_id + " ["@ + phase + "] "@;
    let line = phase_line(job_id, phase, level, message);
    assert(line.take(front.len() as int) =~= front);
    assert(line.skip(line.len() - message.len()) =~= message);
    assert(level == LogLevel::Info ==> line =~= front + message);
    let other = stream_line(job_id, phase, stream, message);
    assert(other.take((front + stream).len() as int) =~= front + stream);
    assert(other.skip(other.len() - message.len()) =~= message);
}

/// The lines of the agent all begin with its name, and how serious one is can be told from
/// how it begins.
pub proof fn levels_are_told_apart(a: LogLevel, b: LogLevel)
    ensures
        crate::text::begins_with(agent_front(a), "[statix-agent]"@),
        agent_front(a) == agent_front(b) ==> a == b,
        level_tag(a) == level_tag(b) ==> a == b,
        a != LogLevel::Info ==> agent_front(a) == "[statix-agent]"@ + level_tag(a),
{
    reveal_strlit("[statix-agent]");
    reveal_strlit("[statix-agent] ");
    reveal_strlit("[statix-agent][warn] ");
    reveal_strlit("[statix-agent][error] ");
    reveal_strlit("[statix-agent][debug] ");
    reveal_strlit("");
    reveal_strlit("[warn] ");
    reveal_strlit("[error] ");
    reveal_strlit("[debug] ");
    assert(agent_front(a).take(14) =~= "[statix-agent]"@);
    assert("[statix-agent][warn] "@[15] == 'w');
    assert("[statix-agent][error] "@[15] == 'e');
    assert("[statix-agent][debug] "@[15] == 'd');
    assert("[statix-agent] "@.len() == 15 && "[statix-agent][warn] "@.len() == 21);
    assert("[statix-agent][error] "@.len() == 22 && "[statix-agent][debug] "@.len() == 22);
    assert(""@.len() == 0 && "[warn] "@.len() == 7);
    assert("[error] "@.len() == 8 && "[debug] "@.len() == 8);
    assert("[warn] "@[1] == 'w');
    assert("[error] "@[1] == 'e');
    assert("[debug] "@[1] == 'd');
    if a != LogLevel::Info {
        assert(agent_front(a) =~= "[statix-agent]"@ + level_tag(a));
    }
}

} // verus!
