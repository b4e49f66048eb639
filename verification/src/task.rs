//! What one invocation of the external program hands back, and the record
//! kept of a task that completed.

use vstd::prelude::*;
use vstd::utf8::{decode_utf8, valid_utf8};
use crate::sweep::BuildCmd;

verus! {

/// What a finished process left behind.
#[derive(Debug, Clone)]
pub struct ProcessOutput {
    /// Whether the process reported success.
    pub success: bool,
    /// The exit code, where the process ended with one.
    pub code: Option<i32>,
    /// Everything the process wrote to its standard output.
    pub stdout: Vec<u8>,
    /// Everything the process wrote to its standard error.
    pub stderr: Vec<u8>,
}

impl ProcessOutput {
    /// Both streams hold well-formed UTF-8.
    pub open spec fn is_text(self) -> bool {
        valid_utf8(self.stdout@) && valid_utf8(self.stderr@)
    }
}

/// How one attempt to run the external program ended.
#[derive(Debug, Clone)]
pub enum Attempt {
    /// The process could not be started; the text says why.
    SpawnFailed(String),
    /// The process ran and ended.
    Exited(ProcessOutput),
}

/// The record of one task whose invocation succeeded.
#[derive(Debug, Clone)]
pub struct Task<P: BuildCmd> {
    /// The parameter set the task was run with.
    pub param: P,
    /// What the successful attempt left behind.
    pub output: ProcessOutput,
    /// The standard output, as text.
    pub stdout: String,
    /// The standard error, as text.
    pub stderr: String,
}

impl<P: BuildCmd> Task<P> {
    /// The record belongs to a successful attempt, and its two texts are the
    /// decodings of the raw streams.
    pub open spec fn wf(self) -> bool {
        &&& self.output.success
        &&& self.output.is_text()
        &&& self.stdout@ == decode_utf8(self.output.stdout@)
        &&& self.stderr@ == decode_utf8(self.output.stderr@)
    }

    /// Copies of the raw standard output and standard error.
    pub fn read_raw(&self) -> (raw: (Vec<u8>, Vec<u8>))
        ensures
            raw.0@ == self.output.stdout@,
            raw.1@ == self.output.stderr@,
    {
        let stdout = self.output.stdout.clone();
        let stderr = self.output.stderr.clone();
        (stdout, stderr)
    }

    /// A copy of the raw standard output.
    pub fn read_raw_stdout(&self) -> (raw: Vec<u8>)
        ensures
            raw@ == self.output.stdout@,
    {
        self.output.stdout.clone()
    }

    /// A copy of the raw standard error.
    pub fn read_raw_stderr(&self) -> (raw: Vec<u8>)
        ensures
            raw@ == self.output.stderr@,
    {
        self.output.stderr.clone()
    }

    /// The standard output and the standard error, as text.
    pub fn read(&self) -> (text: (&str, &str))
        ensures
            text.0@ == self.stdout@,
            text.1@ == self.stderr@,
    {
        (self.stdout.as_str(), self.stderr.as_str())
    }

    /// The standard output, as text.
    pub fn read_stdout(&self) -> (text: &str)
        ensures
            text@ == self.stdout@,
    {
        self.stdout.as_str()
    }

    /// The standard error, as text.
    pub fn read_stderr(&self) -> (text: &str)
        ensures
            text@ == self.stderr@,
    {
        self.stderr.as_str()
    }
}

} // verus!
