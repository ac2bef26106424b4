//! The way out to the multiplexer: something that runs one of its commands.

use vstd::prelude::*;

verus! {

/// What a command left behind: whether it succeeded, and what it printed.
#[derive(Clone, Debug, PartialEq, Eq)]
pub struct CommandOutput {
    pub success: bool,
    pub stdout: Vec<u8>,
}

/// The arguments of a command as texts, in order.
pub open spec fn argument_views(arguments: Seq<&str>) -> Seq<Seq<char>> {
    arguments.map_values(|argument: &str| argument@)
}

/// Runs a command of the multiplexer with the given arguments. An
/// implementation may start a process or answer from a script; nothing is
/// assumed of what comes back, and the same command may be answered
/// differently every time. `Err` holds the words for a command that could
/// not be run at all.
pub trait CommandRunner {
    /// `outcome` is an answer that this runner has given to `arguments`.
    /// The relation says nothing of what an answer holds; it lets a
    /// contract name the answer that a result was made of. Unless a runner
    /// says otherwise, everything counts as an answer of its.
    open spec fn answered(&self, arguments: Seq<Seq<char>>, outcome: Result<CommandOutput, String>) -> bool {
        true
    }

    fn run(&self, arguments: &[&str]) -> (outcome: Result<CommandOutput, String>)
        ensures
            self.answered(argument_views(arguments@), outcome),
    ;
}

} // verus!
