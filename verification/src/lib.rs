//! Runs a sweep of independent invocations of an external program inside a
//! bounded window, retrying failed invocations and collecting the results of
//! each configuration group.

pub mod dispatch;
pub mod error;
pub mod executor;
pub mod groups;
pub mod paths;
pub mod plan;
pub mod retry;
pub mod settings;
pub mod sweep;
pub mod task;
pub mod text;

pub use crate::error::Error;
pub use crate::executor::{Executor, ExecutorBuilder};
pub use crate::sweep::{BuildCmd, BuildParam};
