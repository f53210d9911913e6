use vstd::prelude::*;

verus! {

/// The one kind of error that running a command can report.
#[derive(Debug, Clone, PartialEq, Eq)]
pub enum CommandError {
    CouldNotExecute { reason: String },
}

/// Why resolution failed when no search directory holds the program.
pub open spec fn not_found_reason() -> Seq<char> {
    "Command could not be found"@
}

/// Why a pipeline stopped when a stage before the last one failed.
pub open spec fn chained_failure_reason() -> Seq<char> {
    "Exit code from chained process was not 0"@
}

impl CommandError {
    /// The reason carried by the error.
    pub open spec fn reason_spec(&self) -> Seq<char> {
        match self {
            CommandError::CouldNotExecute { reason } => reason@,
        }
    }

    /// An error that carries the given reason.
    pub fn could_not_execute(reason: &str) -> (r: CommandError)
        ensures
            r.reason_spec() == reason@,
    {
        CommandError::CouldNotExecute { reason: String::from_str(reason) }
    }

    /// The error of a program that no search directory holds.
    pub fn not_found() -> (r: CommandError)
        ensures
            r.reason_spec() == not_found_reason(),
    {
        CommandError::could_not_execute("Command could not be found")
    }

    /// The error of a pipeline whose earlier stage exited with a code other than 0.
    pub fn chained_failure() -> (r: CommandError)
        ensures
            r.reason_spec() == chained_failure_reason(),
    {
        CommandError::could_not_execute("Exit code from chained process was not 0")
    }

    /// The reason, as text.
    pub fn reason(&self) -> (r: String)
        ensures
            r@ == self.reason_spec(),
    {
        match self {
            CommandError::CouldNotExecute { reason } => reason.clone(),
        }
    }
}

} // verus!
