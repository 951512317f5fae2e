//! Descriptions of external invocations, and the groups they are run in.
use vstd::prelude::*;

verus! {

/// Whether a dispatch waits for the child to exit.
#[derive(Clone, Copy, Debug, PartialEq, Eq, Structural)]
pub enum ExecutionMode {
    /// Returns once the child has been created.
    Detached,
    /// Returns once the child has exited and its output has been drained.
    WaitForExit,
}

/// A program and its literal argument vector; no shell is involved.
pub struct CommandSpec {
    pub binary: String,
    pub args: Vec<String>,
}

pub struct CommandView {
    pub binary: Seq<char>,
    pub args: Seq<Seq<char>>,
}

impl View for CommandSpec {
    type V = CommandView;

    open spec fn view(&self) -> CommandView {
        CommandView { binary: self.binary@, args: self.args@.map_values(|a: String| a@) }
    }
}

impl CommandSpec {
    pub fn new(binary: &str, args: Vec<String>) -> (r: CommandSpec)
        ensures
            r.binary@ == binary@,
            r.args@ == args@,
    {
        CommandSpec { binary: String::from_str(binary), args }
    }
}

/// One unit of work of a group.
pub enum Task {
    /// Runs the command in the given mode.
    Dispatch(CommandSpec, ExecutionMode),
    /// Ends every running instance of the command's program, then runs it.
    Restart(CommandSpec),
}

impl Task {
    /// The command that the task launches.
    pub fn command(&self) -> (r: &CommandSpec)
        ensures
            r == match self {
                Task::Dispatch(c, _) => c,
                Task::Restart(c) => c,
            },
    {
        match self {
            Task::Dispatch(c, _) => c,
            Task::Restart(c) => c,
        }
    }

    /// The mode of the task's launch. A restart waits for the relaunched
    /// program to exit.
    pub fn launch_mode(&self) -> (r: ExecutionMode)
        ensures
            r == match self {
                Task::Dispatch(_, m) => *m,
                Task::Restart(_) => ExecutionMode::WaitForExit,
            },
    {
        match self {
            Task::Dispatch(_, m) => *m,
            Task::Restart(_) => ExecutionMode::WaitForExit,
        }
    }

    /// Whether the task first ends the running instances of its program.
    pub fn is_restart(&self) -> (r: bool)
        ensures
            r == (self is Restart),
    {
        match self {
            Task::Dispatch(_, _) => false,
            Task::Restart(_) => true,
        }
    }
}

/// Tasks that may run concurrently; the whole group completes before the
/// next group starts.
pub struct CommandGroup {
    pub tasks: Vec<Task>,
}

} // verus!
