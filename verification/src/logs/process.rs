//! Log lines of processes that the agent runs.
use vstd::prelude::*;
use vstd::string::*;

use crate::jobs::JobLogStream;
use crate::text::{decode_lossy, lossy_text};

use super::format::{agent_front, agent_line, job_stream_line, stream_line, LogLevel};

verus! {

/// A piece of a process's output as it is logged, in the name of the job that the
/// process serves, if it serves one.
pub open spec fn process_line(
    source: Seq<char>,
    stream: JobLogStream,
    message: Seq<char>,
    job_id: Option<Seq<char>>,
) -> Seq<char> {
    match job_id {
        Some(id) => stream_line(id, "process."@ + source, stream.text(), message),
        None => agent_front(LogLevel::Info) + (source + " "@ + stream.text() + ": "@ + message),
    }
}

/// A piece of a process's output as it is logged, given its text.
pub fn process_segment_line(
    source: &str,
    stream: JobLogStream,
    message: &str,
    job_id: Option<&str>,
) -> (r: String)
    ensures
        r@ == process_line(source@, stream, message@, crate::text::str_of(job_id)),
{
    match job_id {
        Some(id) => {
            let mut phase = "process.".to_string();
            phase.append(source);
            job_stream_line(id, phase.as_str(), stream.as_str(), message)
        },
        None => {
            let mut s = source.to_owned();
            s.append(" ");
            s.append(stream.as_str());
            s.append(": ");
            s.append(message);
            agent_line(LogLevel::Info, s.as_str())
        },
    }
}

/// A piece of a process's output as it is logged; an empty one is not.
pub fn emit_process_segment(
    source: &str,
    stream: JobLogStream,
    segment: &[u8],
    job_id: Option<&str>,
) -> (r: Option<String>)
    ensures
        match r {
            Some(line) => segment@.len() > 0 && line@ == process_line(
                source@,
                stream,
                lossy_text(segment@),
                crate::text::str_of(job_id),
            ),
            None => segment@.len() == 0,
        },
{
    if segment.len() == 0 {
        return None;
    }
    let message = decode_lossy(segment);
    Some(process_segment_line(source, stream, message.as_str(), job_id))
}

/// What a process writes is told with the process and the stream, and with the job where
/// there is one; what it wrote stands at the end as it is.
#[verifier::rlimit(40)]
pub proof fn process_output_is_told(
    source: Seq<char>,
    stream: JobLogStream,
    message: Seq<char>,
    job_id: Option<Seq<char>>,
)
    ensures
        ({
            let line = process_line(source, stream, message, job_id);
            &&& crate::text::begins_with(line, "[statix-agent] "@)
            &&& line.skip(line.len() - message.len()) == message
            &&& crate::text::occurs(line, source)
            &&& crate::text::occurs(line, stream.text() + ": "@ + message)
            &&& job_id is Some ==> crate::text::occurs(line, job_id->0)
        }),
{
    let none = Seq::<char>::empty();
    let line = process_line(source, stream, message, job_id);
    let end = stream.text() + ": "@ + message;
    reveal_strlit("[statix-agent] ");
    reveal_strlit("[statix-agent] job ");
    match job_id {
        Some(id) => {
            let a = "[statix-agent] job "@ + id + " ["@;
            let name = "process."@;
            assert(line =~= a + (name + source) + "] "@ + stream.text() + ": "@ + message);
            assert(line.take(15) =~= "[statix-agent] "@);
            crate::text::middle_occurs(a + name, source, "] "@ + end);
            assert(line =~= a + name + source + ("] "@ + end));
            crate::text::middle_occurs(a + name + source + "] "@, end, none);
            assert(line =~= a + name + source + "] "@ + end + none);
            crate::text::middle_occurs("[statix-agent] job "@, id, " ["@ + name + source + "] "@ + end);
            assert(line =~= "[statix-agent] job "@ + id + (" ["@ + name + source + "] "@ + end));
        },
        None => {
            let a = "[statix-agent] "@;
            assert(line.take(15) =~= a);
            crate::text::middle_occurs(a, source, " "@ + end);
            assert(line =~= a + source + (" "@ + end));
            crate::text::middle_occurs(a + source + " "@, end, none);
            assert(line =~= a + source + " "@ + end + none);
        },
    }
    assert(line.skip(line.len() - message.len()) =~= message);
}

} // verus!
