//! Commands of the host: what is run and for how long, and what is known of a
//! command that has run.
use vstd::prelude::*;
use vstd::string::*;

use crate::text::{decode_lossy, lossy_text, texts, trim, trimmed};

verus! {

/// A command, and the milliseconds that it may take.
#[derive(Debug)]
pub struct TimedCommand {
    pub program: &'static str,
    pub args: Vec<String>,
    pub limit_ms: u64,
}

pub struct TimedModel {
    pub program: Seq<char>,
    pub args: Seq<Seq<char>>,
    pub limit_ms: int,
}

impl View for TimedCommand {
    type V = TimedModel;

    open spec fn view(&self) -> TimedModel {
        TimedModel {
            program: self.program@,
            args: texts(self.args@),
            limit_ms: self.limit_ms as int,
        }
    }
}

/// What a command that ended left behind; `status` is how its exit status is
/// shown to a reader.
#[derive(Debug)]
pub struct CommandOutput {
    pub success: bool,
    pub status: String,
    pub stdout: Vec<u8>,
    pub stderr: Vec<u8>,
}

impl CommandOutput {
    /// What the command wrote to its standard output.
    pub open spec fn out(&self) -> Seq<char> {
        lossy_text(self.stdout@)
    }

    /// What the command wrote to its standard error output.
    pub open spec fn err(&self) -> Seq<char> {
        lossy_text(self.stderr@)
    }

    /// What the command wrote to its standard output.
    pub fn stdout_text(&self) -> (r: String)
        ensures
            r@ == self.out(),
    {
        decode_lossy(self.stdout.as_slice())
    }

    /// What the command wrote to its standard error output.
    pub fn stderr_text(&self) -> (r: String)
        ensures
            r@ == self.err(),
    {
        decode_lossy(self.stderr.as_slice())
    }
}

/// The text that tells most about a failure: what stands on the standard error
/// output, else what stands on the standard output.
pub open spec fn telling_text(stdout: Seq<char>, stderr: Seq<char>) -> Seq<char> {
    if trimmed(stderr).len() > 0 {
        trimmed(stderr)
    } else {
        trimmed(stdout)
    }
}

/// The text that tells most about a failure, out of the two outputs.
pub fn more_telling(stdout: &str, stderr: &str) -> (r: String)
    ensures
        r@ == telling_text(stdout@, stderr@),
{
    let e = trim(stderr);
    if !e.as_str().is_empty() {
        return e;
    }
    trim(stdout)
}

/// The text of a command's output that tells most about its failure.
pub fn command_detail(output: &CommandOutput) -> (r: String)
    ensures
        r@ == telling_text(output.out(), output.err()),
{
    let out = output.stdout_text();
    let err = output.stderr_text();
    more_telling(out.as_str(), err.as_str())
}

/// What a command wrote as errors tells most, if it wrote any; white space does not count.
pub proof fn errors_tell_most(stdout: Seq<char>, stderr: Seq<char>)
    ensures
        trimmed(stderr).len() > 0 ==> telling_text(stdout, stderr) == trimmed(stderr),
        trimmed(stderr).len() == 0 ==> telling_text(stdout, stderr) == trimmed(stdout),
{
}

} // verus!
