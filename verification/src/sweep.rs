//! The two capabilities a user supplies: expanding a configuration into
//! the parameter sets of its sweep, and turning one parameter set into a
//! command line.

use vstd::prelude::*;

verus! {

/// Turns one parameter set into the command line handed to the external
/// program.
///
/// The executor asks for the command once per task, when the task is
/// launched, and runs that very text on every attempt.
pub trait BuildCmd {
    /// Builds the command line of this parameter set.
    fn build_cmd(&self) -> String;
}

/// Expands one configuration into the ordered parameter sets of its sweep.
///
/// The executor asks for the expansion once per group, when a run begins,
/// and launches the parameter sets of a group in the order given here.
pub trait BuildParam<P: BuildCmd> {
    /// Expands this configuration.
    fn build_param(&self) -> Vec<P>;
}

} // verus!
