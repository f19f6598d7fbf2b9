use vstd::prelude::*;

verus! {

/// How a run of the command line ends.
#[derive(Clone, Copy, Debug, PartialEq, Eq, Structural)]
pub enum ExitCode {
    Success,
    ErrorOptions,
    ErrorReadingDatabaseFile,
    ErrorParse,
    ErrorDependencies,
    ErrorPackageNotDefined,
    ErrorInstall,
    ErrorInfo,
}

pub open spec fn status_of(e: ExitCode) -> i32 {
    match e {
        ExitCode::Success => 0,
        ExitCode::ErrorOptions => 2,
        ExitCode::ErrorReadingDatabaseFile => 3,
        ExitCode::ErrorParse => 4,
        ExitCode::ErrorDependencies => 4,
        ExitCode::ErrorPackageNotDefined => 5,
        ExitCode::ErrorInstall => 8,
        ExitCode::ErrorInfo => 9,
    }
}

impl ExitCode {
    /// The process exit status; 2 is the one that option parsing uses on its own.
    pub fn code(self) -> (r: i32)
        ensures
            r == status_of(self),
    {
        match self {
            ExitCode::Success => 0,
            ExitCode::ErrorOptions => 2,
            ExitCode::ErrorReadingDatabaseFile => 3,
            ExitCode::ErrorParse => 4,
            ExitCode::ErrorDependencies => 4,
            ExitCode::ErrorPackageNotDefined => 5,
            ExitCode::ErrorInstall => 8,
            ExitCode::ErrorInfo => 9,
        }
    }
}

} // verus!
