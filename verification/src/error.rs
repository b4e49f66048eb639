//! The error type shared by every fallible operation of the executor.

use vstd::prelude::*;
use crate::text::join3;

verus! {

/// What can go wrong while configuring or running a sweep.
///
/// Every variant but the last carries a human readable explanation.
#[derive(Debug, Clone)]
pub enum Error {
    /// A configuration value is malformed.
    InvalidConfig(String),
    /// The configuration file or the entry point of the external tool is missing.
    FileNotFound(String),
    /// The configuration file does not hold data of the expected shape.
    InvalidConfigFormat(String),
    /// The external program could not be started, or its output could not be read as text.
    ExecuteFail(String),
    /// The build step that precedes every run failed.
    BuildFail(String),
    /// A failure of the file system.
    IoError(String),
    /// A background unit of execution could not be joined.
    JoinError(String),
    /// The requested combination of options is not supported.
    NotImplement(String),
    /// Every attempt that the retry limit allows for one task has failed.
    RetryLimitExceed,
}

/// The explanation of a TOML file that cannot be read, given what the
/// reader said of it.
pub open spec fn toml_failure_text(why: Seq<char>) -> Seq<char> {
    "Config file is not a valid toml file. Err: "@ + why + "."@
}

impl Error {
    /// The error for a failure of the file system, given its description.
    pub fn from_io(why: String) -> (error: Error)
        ensures
            error == Error::IoError(why),
    {
        Error::IoError(why)
    }

    /// The error for a background unit of execution that could not be
    /// joined, given the description of the failure.
    pub fn from_join(why: String) -> (error: Error)
        ensures
            error == Error::JoinError(why),
    {
        Error::JoinError(why)
    }

    /// The error for a RON file that cannot be read, given what the reader
    /// said of it.
    pub fn from_ron(why: String) -> (error: Error)
        ensures
            error == Error::InvalidConfigFormat(why),
    {
        Error::InvalidConfigFormat(why)
    }

    /// The error for a JSON file that cannot be read, given what the reader
    /// said of it.
    pub fn from_json(why: String) -> (error: Error)
        ensures
            error == Error::InvalidConfigFormat(why),
    {
        Error::InvalidConfigFormat(why)
    }

    /// The error for a YAML file that cannot be read, given what the reader
    /// said of it.
    pub fn from_yaml(why: String) -> (error: Error)
        ensures
            error == Error::InvalidConfigFormat(why),
    {
        Error::InvalidConfigFormat(why)
    }

    /// The error for a TOML file that cannot be read, or that holds a group
    /// which does not fit the configuration, given what the reader said of
    /// it.
    pub fn from_toml(why: &str) -> (error: Error)
        ensures
            error matches Error::InvalidConfigFormat(msg) && msg@ == toml_failure_text(why@),
    {
        Error::InvalidConfigFormat(join3("Config file is not a valid toml file. Err: ", why, "."))
    }
}

} // verus!
